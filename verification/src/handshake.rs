//! The login handshake: how each inbound chunk is interpreted before the
//! session is ready, and a replay of a whole scripted exchange.
//!
//! Prompts are recognised by case-insensitive substring match, one action
//! per chunk, first match winning in a fixed order: the failure notice,
//! then the user-name prompt, then the password prompt, then the greeting.

use vstd::prelude::*;
use vstd::utf8::encode_utf8;
use crate::bytes::{has_match, spec_lower, contains_sub, lower_bytes};

verus! {

/// What one inbound chunk asks the connector to do.
#[derive(Debug, Clone, Copy, PartialEq, Eq)]
pub enum HandshakeAction {
    /// Zero-length read: the peer closed before the session was ready.
    Closed,
    /// The server rejected the credentials.
    Fail,
    /// The server asked for the user name.
    SendUsername,
    /// The server asked for the password.
    SendPassword,
    /// The server greeted: the handshake is complete.
    Done,
    /// Nothing recognised; keep reading.
    Ignore,
}

/// The action that a chunk triggers.  The checks are independent substring
/// matches on the lower-cased bytes, tried in a fixed order; only the first
/// match counts.
pub open spec fn spec_handshake_action(chunk: Seq<u8>) -> HandshakeAction {
    let low = spec_lower(chunk);
    if chunk.len() == 0 {
        HandshakeAction::Closed
    } else if has_match(low, encode_utf8("login failed."@)) {
        HandshakeAction::Fail
    } else if has_match(low, encode_utf8("username:"@)) {
        HandshakeAction::SendUsername
    } else if has_match(low, encode_utf8("password:"@)) {
        HandshakeAction::SendPassword
    } else if has_match(low, encode_utf8("hello"@)) {
        HandshakeAction::Done
    } else {
        HandshakeAction::Ignore
    }
}

/// Interprets one inbound chunk of the handshake.
pub fn handshake_step(chunk: &[u8]) -> (a: HandshakeAction)
    ensures
        a == spec_handshake_action(chunk@),
{
    if chunk.len() == 0 {
        return HandshakeAction::Closed;
    }
    let low = lower_bytes(chunk);
    if contains_sub(low.as_slice(), "login failed.".as_bytes()) {
        HandshakeAction::Fail
    } else if contains_sub(low.as_slice(), "username:".as_bytes()) {
        HandshakeAction::SendUsername
    } else if contains_sub(low.as_slice(), "password:".as_bytes()) {
        HandshakeAction::SendPassword
    } else if contains_sub(low.as_slice(), "hello".as_bytes()) {
        HandshakeAction::Done
    } else {
        HandshakeAction::Ignore
    }
}

/// How a whole handshake ended.
#[derive(Debug, Clone, Copy, PartialEq, Eq)]
pub enum HandshakeOutcome {
    /// The greeting was seen: the session is ready.
    Ready,
    /// The server announced a login failure.
    AuthFailed,
    /// The peer closed, or the script ran out, before the greeting.
    ConnectionClosed,
}

/// Which credential line the connector wrote in answer to a prompt.
#[derive(Debug, Clone, Copy, PartialEq, Eq)]
pub enum CredentialWrite {
    Username,
    Password,
}

/// The views of a list of chunks.
pub open spec fn chunk_views(cs: Seq<Vec<u8>>) -> Seq<Seq<u8>> {
    cs.map_values(|c: Vec<u8>| c@)
}

/// Replaying the handshake over a list of chunks: the outcome, and the
/// credential lines written, in order.
pub open spec fn spec_run_handshake(chunks: Seq<Seq<u8>>) -> (HandshakeOutcome, Seq<
    CredentialWrite,
>)
    decreases chunks.len(),
{
    if chunks.len() == 0 {
        (HandshakeOutcome::ConnectionClosed, Seq::<CredentialWrite>::empty())
    } else {
        match spec_handshake_action(chunks[0]) {
            HandshakeAction::Closed => (
                HandshakeOutcome::ConnectionClosed,
                Seq::<CredentialWrite>::empty(),
            ),
            HandshakeAction::Fail => (HandshakeOutcome::AuthFailed, Seq::<
                CredentialWrite,
            >::empty()),
            HandshakeAction::Done => (HandshakeOutcome::Ready, Seq::<CredentialWrite>::empty()),
            HandshakeAction::SendUsername => {
                let (o, w) = spec_run_handshake(chunks.drop_first());
                (o, seq![CredentialWrite::Username] + w)
            },
            HandshakeAction::SendPassword => {
                let (o, w) = spec_run_handshake(chunks.drop_first());
                (o, seq![CredentialWrite::Password] + w)
            },
            HandshakeAction::Ignore => spec_run_handshake(chunks.drop_first()),
        }
    }
}

/// The result of replaying a handshake against a scripted exchange.
#[derive(Debug, Clone, PartialEq, Eq)]
pub struct HandshakeRun {
    /// How the handshake ended.
    pub outcome: HandshakeOutcome,
    /// The credential lines written, in order.
    pub writes: Vec<CredentialWrite>,
}

/// Replays the handshake against a scripted list of chunks, as the
/// connector would drive it over the socket: one action per chunk until a
/// terminal action; a script that runs out counts as a closed peer.
pub fn run_handshake(chunks: &Vec<Vec<u8>>) -> (r: HandshakeRun)
    ensures
        ({
            let (o, w) = spec_run_handshake(chunk_views(chunks@));
            r.outcome == o && r.writes@ == w
        }),
{
    let ghost all = chunk_views(chunks@);
    let n = chunks.len();
    let mut writes: Vec<CredentialWrite> = Vec::new();
    let mut i: usize = 0;
    proof {
        assert(all.subrange(0, n as int) =~= all);
        let (o0, w0) = spec_run_handshake(all);
        assert(Seq::<CredentialWrite>::empty() + w0 =~= w0);
    }
    loop
        invariant
            i <= n,
            n == chunks@.len(),
            all == chunk_views(chunks@),
            spec_run_handshake(all) == {
                let (o, w) = spec_run_handshake(all.subrange(i as int, n as int));
                (o, writes@ + w)
            },
        decreases n - i,
    {
        assert(all.subrange(i as int, n as int).len() == n - i);
        if i == n {
            assert(writes@ + Seq::<CredentialWrite>::empty() =~= writes@);
            return HandshakeRun { outcome: HandshakeOutcome::ConnectionClosed, writes };
        }
        let ghost rest = all.subrange(i as int, n as int);
        let ghost rest1 = all.subrange(i + 1, n as int);
        proof {
            assert(rest[0] == all[i as int]);
            assert(all[i as int] == chunks@[i as int]@);
            assert(rest.drop_first() =~= rest1);
        }
        let action = handshake_step(chunks[i].as_slice());
        match action {
            HandshakeAction::Closed => {
                assert(writes@ + Seq::<CredentialWrite>::empty() =~= writes@);
                return HandshakeRun { outcome: HandshakeOutcome::ConnectionClosed, writes };
            },
            HandshakeAction::Fail => {
                assert(writes@ + Seq::<CredentialWrite>::empty() =~= writes@);
                return HandshakeRun { outcome: HandshakeOutcome::AuthFailed, writes };
            },
            HandshakeAction::Done => {
                assert(writes@ + Seq::<CredentialWrite>::empty() =~= writes@);
                return HandshakeRun { outcome: HandshakeOutcome::Ready, writes };
            },
            HandshakeAction::SendUsername => {
                writes.push(CredentialWrite::Username);
                proof {
                    let (o1, w1) = spec_run_handshake(rest1);
                    assert(writes@ + w1 =~= old_push_concat(writes@, w1));
                }
            },
            HandshakeAction::SendPassword => {
                writes.push(CredentialWrite::Password);
                proof {
                    let (o1, w1) = spec_run_handshake(rest1);
                    assert(writes@ + w1 =~= old_push_concat(writes@, w1));
                }
            },
            HandshakeAction::Ignore => {},
        }
        i += 1;
    }
}

/// Helper for regrouping a pushed element into a concatenation.
spec fn old_push_concat(w: Seq<CredentialWrite>, rest: Seq<CredentialWrite>) -> Seq<
    CredentialWrite,
> {
    w.subrange(0, w.len() - 1) + (seq![w[w.len() - 1]] + rest)
}

/// A login failure ends the handshake with no further writes: if chunk `k`
/// announces the failure and every chunk before it only prompted or was
/// ignored, the replay fails authentication and writes exactly what the
/// first `k` chunks prompted.
pub proof fn lemma_login_failure(chunks: Seq<Seq<u8>>, k: int)
    requires
        0 <= k < chunks.len(),
        spec_handshake_action(chunks[k]) is Fail,
        forall|j: int| 0 <= j < k ==> (spec_handshake_action(chunks[j]) is SendUsername
            || spec_handshake_action(chunks[j]) is SendPassword || spec_handshake_action(
            chunks[j],
        ) is Ignore),
    ensures
        spec_run_handshake(chunks).0 is AuthFailed,
        spec_run_handshake(chunks).1 == spec_run_handshake(chunks.subrange(0, k)).1,
    decreases k,
{
    if k == 0 {
        assert(spec_run_handshake(chunks.subrange(0, 0)).1 =~= Seq::<CredentialWrite>::empty());
    } else {
        let tail = chunks.drop_first();
        assert(tail[k - 1] == chunks[k]);
        assert(forall|j: int| 0 <= j < k - 1 ==> tail[j] == chunks[j + 1]);
        lemma_login_failure(tail, k - 1);
        assert(chunks.subrange(0, k).drop_first() =~= tail.subrange(0, k - 1));
        assert(chunks.subrange(0, k)[0] == chunks[0]);
    }
}

} // verus!
