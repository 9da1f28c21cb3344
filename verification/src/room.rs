//! Reading the room roster out of the server's session log.
//!
//! The log is line-oriented, fields separated by commas.  A three-field
//! line opens (or reopens) a room: its id in the second field, its name in
//! the third.  A five-field line seats a player: the room id in the fifth
//! field.  Lines of any other shape, and lines whose id field is not a
//! number, are ignored.  The roster comes out sorted by room id.

use vstd::prelude::*;
use vstd::string::StrSliceExecFns;

verus! {

/// One room of the roster.
#[derive(Debug, Clone, PartialEq, Eq)]
pub struct RoomInfo {
    pub room_id: u16,
    pub room_name: String,
    pub player_count: u8,
}

/// The index of the first occurrence of `c` in `s`, if any.
pub open spec fn spec_find_char(s: Seq<char>, c: char) -> Option<int>
    decreases s.len(),
{
    if s.len() == 0 {
        None
    } else if s[0] == c {
        Some(0int)
    } else {
        match spec_find_char(s.drop_first(), c) {
            None => None,
            Some(i) => Some(i + 1),
        }
    }
}

/// `spec_find_char` points at the first occurrence, or reports none.
pub proof fn lemma_find_char_characterization(s: Seq<char>, c: char)
    ensures
        match spec_find_char(s, c) {
            Some(i) => 0 <= i < s.len() && s[i] == c && forall|j: int| 0 <= j < i ==> s[j] != c,
            None => forall|j: int| 0 <= j < s.len() ==> s[j] != c,
        },
    decreases s.len(),
{
    if s.len() == 0 {
    } else if s[0] == c {
    } else {
        let tail = s.drop_first();
        lemma_find_char_characterization(tail, c);
        match spec_find_char(tail, c) {
            None => {
                assert forall|j: int| 0 <= j < s.len() implies s[j] != c by {
                    if j != 0 {
                        assert(tail[j - 1] == s[j]);
                    }
                }
            },
            Some(i) => {
                assert(s[i + 1] == tail[i]);
                assert forall|j: int| 0 <= j < i + 1 implies s[j] != c by {
                    if j != 0 {
                        assert(tail[j - 1] == s[j]);
                    }
                }
            },
        }
    }
}

/// `s` split at every comma; no commas give the one whole field.
pub open spec fn spec_split(s: Seq<char>) -> Seq<Seq<char>>
    decreases s.len(),
    via spec_split_decreases
{
    match spec_find_char(s, ',') {
        None => seq![s],
        Some(i) => seq![s.subrange(0, i)] + spec_split(s.subrange(i + 1, s.len() as int)),
    }
}

#[via_fn]
proof fn spec_split_decreases(s: Seq<char>) {
    lemma_find_char_characterization(s, ',');
}

/// Splits a line at every comma.
pub fn split_commas(line: &str) -> (r: Vec<String>)
    ensures
        r@.map_values(|t: String| t@) == spec_split(line@),
    decreases line@.len(),
{
    proof {
        lemma_find_char_characterization(line@, ',');
    }
    let n = line.unicode_len();
    let mut i: usize = 0;
    let mut found: Option<usize> = None;
    while i < n && found.is_none()
        invariant
            i <= n,
            n == line@.len(),
            match found {
                Some(p) => p < n && line@[p as int] == ',' && forall|j: int|
                    0 <= j < p ==> line@[j] != ',',
                None => forall|j: int| 0 <= j < i ==> line@[j] != ',',
            },
        decreases n - i + (if found.is_none() {
            1int
        } else {
            0int
        }),
    {
        if line.get_char(i) == ',' {
            found = Some(i);
        } else {
            i += 1;
        }
    }
    match found {
        None => {
            let mut v: Vec<String> = Vec::new();
            v.push(line.to_owned());
            proof {
                assert(v@.map_values(|t: String| t@) =~= seq![line@]);
            }
            v
        },
        Some(p) => {
            let head = line.substring_char(0, p).to_owned();
            let rest = line.substring_char(p + 1, n);
            let mut tail = split_commas(rest);
            let mut v: Vec<String> = Vec::new();
            v.push(head);
            v.append(&mut tail);
            proof {
                assert(spec_find_char(line@, ',') == Some(p as int));
                assert(v@.map_values(|t: String| t@) =~= seq![line@.subrange(0, p as int)]
                    + spec_split(line@.subrange(p + 1, n as int)));
            }
            v
        },
    }
}

/// Whether `c` is a decimal digit.
pub open spec fn is_digit_char(c: char) -> bool {
    48 <= (c as u32) <= 57
}

/// The value of a digit character.
pub open spec fn digit_val(c: char) -> int {
    (c as u32) - 48
}

/// Whether the text consists of decimal digits only.
pub open spec fn all_digits(s: Seq<char>) -> bool {
    forall|i: int| 0 <= i < s.len() ==> is_digit_char(#[trigger] s[i])
}

/// The decimal value of a digit string.
pub open spec fn spec_digits_val(s: Seq<char>) -> int
    decreases s.len(),
{
    if s.len() == 0 {
        0
    } else {
        spec_digits_val(s.drop_last()) * 10 + digit_val(s.last())
    }
}

/// A digit string's value is non-negative.
proof fn lemma_digits_val_nonneg(s: Seq<char>)
    requires
        all_digits(s),
    ensures
        spec_digits_val(s) >= 0,
    decreases s.len(),
{
    if s.len() > 0 {
        assert(all_digits(s.drop_last()));
        lemma_digits_val_nonneg(s.drop_last());
    }
}

/// Extending a digit string never shrinks its value.
proof fn lemma_digits_val_monotone(s: Seq<char>, i: int)
    requires
        0 <= i <= s.len(),
        all_digits(s),
    ensures
        spec_digits_val(s.subrange(0, i)) <= spec_digits_val(s),
    decreases s.len() - i,
{
    if i < s.len() {
        assert(s.subrange(0, i + 1).drop_last() =~= s.subrange(0, i));
        assert(s.subrange(0, i + 1).last() == s[i]);
        assert(all_digits(s.subrange(0, i)));
        lemma_digits_val_nonneg(s.subrange(0, i));
        lemma_digits_val_monotone(s, i + 1);
    } else {
        assert(s.subrange(0, s.len() as int) =~= s);
    }
}

/// Parses a decimal room id: digits only, no sign, value at most 65535.
pub fn parse_u16(s: &str) -> (r: Option<u16>)
    ensures
        match r {
            Some(v) => s@.len() > 0 && all_digits(s@) && spec_digits_val(s@) == v,
            None => s@.len() == 0 || !all_digits(s@) || spec_digits_val(s@) > 65535,
        },
{
    let n = s.unicode_len();
    if n == 0 {
        return None;
    }
    let mut acc: u32 = 0;
    let mut i: usize = 0;
    while i < n
        invariant
            i <= n,
            n == s@.len(),
            all_digits(s@.subrange(0, i as int)),
            acc == spec_digits_val(s@.subrange(0, i as int)),
            acc <= 65535,
        decreases n - i,
    {
        let c = s.get_char(i);
        let u = c as u32;
        if u < 48 || u > 57 {
            assert(!is_digit_char(s@[i as int]));
            return None;
        }
        proof {
            assert(s@.subrange(0, i + 1).drop_last() =~= s@.subrange(0, i as int));
            assert(s@.subrange(0, i + 1).last() == s@[i as int]);
            assert(all_digits(s@.subrange(0, i + 1)));
        }
        acc = acc * 10 + (u - 48);
        if acc > 65535 {
            proof {
                if all_digits(s@) {
                    lemma_digits_val_monotone(s@, i + 1);
                }
            }
            return None;
        }
        i += 1;
    }
    assert(s@.subrange(0, n as int) =~= s@);
    Some(acc as u16)
}

/// The spec-level shape of a room: id, name, seated players.
pub open spec fn room_views(rs: Seq<RoomInfo>) -> Seq<(u16, Seq<char>, u8)> {
    rs.map_values(|r: RoomInfo| (r.room_id, r.room_name@, r.player_count))
}

/// Room ids strictly ascending: sorted, no two alike.
pub open spec fn sorted_ids(rs: Seq<(u16, Seq<char>, u8)>) -> bool {
    forall|j: int, k: int| 0 <= j < k < rs.len() ==> (#[trigger] rs[j]).0 < (#[trigger] rs[k]).0
}

/// Inserts a room by id into an id-sorted roster, replacing the room that
/// already carries that id, if any.
pub open spec fn spec_upsert(rs: Seq<(u16, Seq<char>, u8)>, room: (u16, Seq<char>, u8)) -> Seq<
    (u16, Seq<char>, u8),
>
    decreases rs.len(),
{
    if rs.len() == 0 {
        seq![room]
    } else if rs[0].0 < room.0 {
        seq![rs[0]] + spec_upsert(rs.drop_first(), room)
    } else if rs[0].0 == room.0 {
        seq![room] + rs.drop_first()
    } else {
        seq![room] + rs
    }
}

/// Seats one player: bumps the count of every room carrying the id, the
/// count wrapping at its width.
pub open spec fn spec_bump(rs: Seq<(u16, Seq<char>, u8)>, id: u16) -> Seq<(u16, Seq<char>, u8)> {
    rs.map_values(
        |e: (u16, Seq<char>, u8)|
            if e.0 == id {
                (e.0, e.1, e.2.wrapping_add(1))
            } else {
                e
            },
    )
}

/// What one log line does to the roster.
pub open spec fn spec_room_step(rs: Seq<(u16, Seq<char>, u8)>, line: Seq<char>) -> Seq<
    (u16, Seq<char>, u8),
> {
    let fields = spec_split(line);
    if fields.len() == 3 {
        if fields[1].len() > 0 && all_digits(fields[1]) && spec_digits_val(fields[1]) <= 65535 {
            spec_upsert(rs, (spec_digits_val(fields[1]) as u16, fields[2], 0u8))
        } else {
            rs
        }
    } else if fields.len() == 5 {
        if fields[4].len() > 0 && all_digits(fields[4]) && spec_digits_val(fields[4]) <= 65535 {
            spec_bump(rs, spec_digits_val(fields[4]) as u16)
        } else {
            rs
        }
    } else {
        rs
    }
}

/// The roster that a whole log produces, line by line.
pub open spec fn spec_room_fold(lines: Seq<Seq<char>>) -> Seq<(u16, Seq<char>, u8)>
    decreases lines.len(),
{
    if lines.len() == 0 {
        Seq::<(u16, Seq<char>, u8)>::empty()
    } else {
        spec_room_step(spec_room_fold(lines.drop_last()), lines.last())
    }
}

/// Upserting into an id-sorted roster keeps it id-sorted.
proof fn lemma_upsert_sorted(rs: Seq<(u16, Seq<char>, u8)>, room: (u16, Seq<char>, u8))
    requires
        sorted_ids(rs),
    ensures
        sorted_ids(spec_upsert(rs, room)),
        spec_upsert(rs, room).len() >= 1,
        forall|k: int| 0 <= k < spec_upsert(rs, room).len() ==> (#[trigger] spec_upsert(
            rs,
            room,
        )[k]).0 >= if rs.len() == 0 || rs[0].0 >= room.0 {
            room.0
        } else {
            rs[0].0
        },
    decreases rs.len(),
{
    if rs.len() == 0 {
    } else if rs[0].0 < room.0 {
        assert(sorted_ids(rs.drop_first()));
        lemma_upsert_sorted(rs.drop_first(), room);
        let out = seq![rs[0]] + spec_upsert(rs.drop_first(), room);
        assert forall|j: int, k: int| 0 <= j < k < out.len() implies (#[trigger] out[j]).0 < (
        #[trigger] out[k]).0 by {
            if j > 0 {
                assert(out[j] == spec_upsert(rs.drop_first(), room)[j - 1]);
            }
            assert(out[k] == spec_upsert(rs.drop_first(), room)[k - 1]);
            if rs.len() >= 2 {
                assert(rs.drop_first()[0] == rs[1]);
            }
        }
    } else if rs[0].0 == room.0 {
        let out = seq![room] + rs.drop_first();
        assert forall|j: int, k: int| 0 <= j < k < out.len() implies (#[trigger] out[j]).0 < (
        #[trigger] out[k]).0 by {
            assert(out[k] == rs.drop_first()[k - 1]);
            assert(rs.drop_first()[k - 1] == rs[k]);
            if j > 0 {
                assert(out[j] == rs[j]);
            }
        }
    } else {
        let out = seq![room] + rs;
        assert forall|j: int, k: int| 0 <= j < k < out.len() implies (#[trigger] out[j]).0 < (
        #[trigger] out[k]).0 by {
            assert(out[k] == rs[k - 1]);
            if j > 0 {
                assert(out[j] == rs[j - 1]);
            }
        }
    }
}

/// Bumping keeps the roster id-sorted: the ids do not move.
proof fn lemma_bump_sorted(rs: Seq<(u16, Seq<char>, u8)>, id: u16)
    requires
        sorted_ids(rs),
    ensures
        sorted_ids(spec_bump(rs, id)),
{
    assert forall|j: int, k: int| 0 <= j < k < spec_bump(rs, id).len() implies (
    #[trigger] spec_bump(rs, id)[j]).0 < (#[trigger] spec_bump(rs, id)[k]).0 by {
        assert(spec_bump(rs, id)[j].0 == rs[j].0);
        assert(spec_bump(rs, id)[k].0 == rs[k].0);
    }
}

/// Where the scan stopped determines the upsert: everything before `pos`
/// has a smaller id, so the room goes in at `pos`, replacing an equal id.
proof fn lemma_upsert_at(
    rs: Seq<(u16, Seq<char>, u8)>,
    room: (u16, Seq<char>, u8),
    pos: int,
)
    requires
        0 <= pos <= rs.len(),
        forall|j: int| 0 <= j < pos ==> (#[trigger] rs[j]).0 < room.0,
        pos < rs.len() ==> rs[pos].0 >= room.0,
    ensures
        spec_upsert(rs, room) == if pos < rs.len() && rs[pos].0 == room.0 {
            rs.subrange(0, pos) + seq![room] + rs.subrange(pos + 1, rs.len() as int)
        } else {
            rs.subrange(0, pos) + seq![room] + rs.subrange(pos, rs.len() as int)
        },
    decreases rs.len(),
{
    if rs.len() == 0 {
        assert(spec_upsert(rs, room) =~= rs.subrange(0, 0) + seq![room] + rs.subrange(0, 0));
    } else if rs[0].0 < room.0 {
        assert(pos > 0);
        let tail = rs.drop_first();
        assert(forall|j: int| 0 <= j < pos - 1 ==> (#[trigger] tail[j]).0 < room.0);
        lemma_upsert_at(tail, room, pos - 1);
        if pos < rs.len() && rs[pos].0 == room.0 {
            assert(spec_upsert(rs, room) =~= rs.subrange(0, pos) + seq![room] + rs.subrange(
                pos + 1,
                rs.len() as int,
            ));
        } else {
            assert(spec_upsert(rs, room) =~= rs.subrange(0, pos) + seq![room] + rs.subrange(
                pos,
                rs.len() as int,
            ));
        }
    } else if rs[0].0 == room.0 {
        assert(pos == 0);
        assert(spec_upsert(rs, room) =~= rs.subrange(0, 0) + seq![room] + rs.subrange(
            1,
            rs.len() as int,
        ));
    } else {
        assert(pos == 0);
        assert(spec_upsert(rs, room) =~= rs.subrange(0, 0) + seq![room] + rs.subrange(
            0,
            rs.len() as int,
        ));
    }
}

/// Inserts a room into the id-sorted roster, replacing an existing entry
/// with the same id.
fn upsert_room(rooms: &mut Vec<RoomInfo>, room: RoomInfo)
    requires
        sorted_ids(room_views(old(rooms)@)),
    ensures
        room_views(final(rooms)@) == spec_upsert(
            room_views(old(rooms)@),
            (room.room_id, room.room_name@, room.player_count),
        ),
        sorted_ids(room_views(final(rooms)@)),
{
    let ghost rv = room_views(rooms@);
    let ghost rm = (room.room_id, room.room_name@, room.player_count);
    let n = rooms.len();
    let mut pos: usize = 0;
    while pos < n && rooms[pos].room_id < room.room_id
        invariant
            pos <= n,
            n == rooms@.len(),
            rv == room_views(rooms@),
            rm == (room.room_id, room.room_name@, room.player_count),
            forall|j: int| 0 <= j < pos ==> (#[trigger] rv[j]).0 < rm.0,
        decreases n - pos,
    {
        assert(rv[pos as int].0 == rooms@[pos as int].room_id);
        pos += 1;
    }
    proof {
        if pos < n {
            assert(rv[pos as int].0 == rooms@[pos as int].room_id);
        }
        lemma_upsert_at(rv, rm, pos as int);
        lemma_upsert_sorted(rv, rm);
    }
    if pos < n && rooms[pos].room_id == room.room_id {
        rooms.remove(pos);
        rooms.insert(pos, room);
        assert(room_views(rooms@) =~= rv.subrange(0, pos as int) + seq![rm] + rv.subrange(
            pos + 1,
            rv.len() as int,
        ));
    } else {
        rooms.insert(pos, room);
        assert(room_views(rooms@) =~= rv.subrange(0, pos as int) + seq![rm] + rv.subrange(
            pos as int,
            rv.len() as int,
        ));
    }
}

/// Seats one player in the room with the given id, if it is on the
/// roster; the count wraps at its width.
fn bump_room(rooms: &mut Vec<RoomInfo>, id: u16)
    requires
        sorted_ids(room_views(old(rooms)@)),
    ensures
        room_views(final(rooms)@) == spec_bump(room_views(old(rooms)@), id),
        sorted_ids(room_views(final(rooms)@)),
{
    let ghost rv = room_views(old(rooms)@);
    let n = rooms.len();
    let mut i: usize = 0;
    while i < n
        invariant
            i <= n,
            n == rooms@.len(),
            rv == room_views(old(rooms)@),
            rv.len() == n,
            forall|j: int| i <= j < n ==> room_views(rooms@)[j] == rv[j],
            forall|j: int| 0 <= j < i ==> room_views(rooms@)[j] == spec_bump(rv, id)[j],
        decreases n - i,
    {
        assert(room_views(rooms@)[i as int] == rv[i as int]);
        if rooms[i].room_id == id {
            let ghost before = rooms@;
            let r = rooms.remove(i);
            let bumped = RoomInfo {
                room_id: r.room_id,
                room_name: r.room_name,
                player_count: r.player_count.wrapping_add(1),
            };
            rooms.insert(i, bumped);
            proof {
                assert(rooms@ =~= before.update(i as int, bumped));
                assert forall|j: int| 0 <= j < n && j != i implies room_views(rooms@)[j]
                    == room_views(before)[j] by {
                    assert(rooms@[j] == before[j]);
                }
                assert(room_views(rooms@)[i as int] == spec_bump(rv, id)[i as int]);
            }
        }
        i += 1;
    }
    proof {
        lemma_bump_sorted(rv, id);
        assert(room_views(rooms@) =~= spec_bump(rv, id));
    }
}

/// Replays the whole log: every line in order, as `spec_room_fold` says,
/// the roster coming out sorted by room id.
pub fn parse_room_log(lines: &Vec<String>) -> (r: Vec<RoomInfo>)
    ensures
        room_views(r@) == spec_room_fold(lines@.map_values(|t: String| t@)),
        sorted_ids(room_views(r@)),
{
    let ghost lv = lines@.map_values(|t: String| t@);
    let n = lines.len();
    let mut rooms: Vec<RoomInfo> = Vec::new();
    let mut i: usize = 0;
    while i < n
        invariant
            i <= n,
            n == lines@.len(),
            lv == lines@.map_values(|t: String| t@),
            room_views(rooms@) == spec_room_fold(lv.subrange(0, i as int)),
            sorted_ids(room_views(rooms@)),
        decreases n - i,
    {
        let fields = split_commas(lines[i].as_str());
        proof {
            assert(lv.subrange(0, i + 1).drop_last() =~= lv.subrange(0, i as int));
            assert(lv.subrange(0, i + 1).last() == lv[i as int]);
            assert(lv[i as int] == lines@[i as int]@);
        }
        let nf = fields.len();
        if nf == 3 {
            match parse_u16(fields[1].as_str()) {
                Some(id) => {
                    assert(fields@.map_values(|t: String| t@)[1] == fields@[1]@);
                    assert(fields@.map_values(|t: String| t@)[2] == fields@[2]@);
                    let name = fields[2].clone();
                    let room = RoomInfo { room_id: id, room_name: name, player_count: 0 };
                    upsert_room(&mut rooms, room);
                },
                None => {},
            }
        } else if nf == 5 {
            match parse_u16(fields[4].as_str()) {
                Some(id) => {
                    assert(fields@.map_values(|t: String| t@)[4] == fields@[4]@);
                    bump_room(&mut rooms, id);
                },
                None => {},
            }
        }
        i += 1;
    }
    assert(lv.subrange(0, n as int) =~= lv);
    rooms
}

} // verus!
