//! Level geometry and lifecycle: static platforms, the exit marker, the
//! level text parser and the win predicate.

use vstd::prelude::*;

use crate::physics::Body;
use crate::physics::EntitySize;
use crate::physics::POSITION_LIMIT;
use crate::physics::Position;
use crate::physics::Velocity;
use crate::physics::div_trunc;

verus! {

/// Pixels (in milli-units) between the player's center and the exit
/// within which the level counts as cleared.
pub const EXIT_MARGIN: i64 = 5_000;

/// Side length of the square drawn for the exit, in milli-units.
pub const EXIT_SIZE: i64 = 18_000;

/// An axis-aligned static rectangle that blocks motion.
#[derive(Clone, Copy, Debug, PartialEq, Eq, Structural)]
pub struct Platform {
    pub lowx: i64,
    pub highx: i64,
    pub lowy: i64,
    pub highy: i64,
}

/// The point the player must reach to clear the level.
#[derive(Clone, Copy, Debug, PartialEq, Eq, Structural)]
pub struct Exit {
    pub x: i64,
    pub y: i64,
}

/// Marks a movable object spawned from level data.
#[derive(Clone, Copy, Debug, PartialEq, Eq, Structural)]
pub struct Object;

/// Marks a region that despawns bodies entering it.
#[derive(Clone, Copy, Debug, PartialEq, Eq, Structural)]
pub struct DeathZone;

/// Well-formedness of a platform: ordered, bounded edges.
pub open spec fn valid_platform(p: Platform) -> bool {
    &&& p.lowx <= p.highx
    &&& p.lowy <= p.highy
    &&& -POSITION_LIMIT <= p.lowx
    &&& p.highx <= POSITION_LIMIT
    &&& -POSITION_LIMIT <= p.lowy
    &&& p.highy <= POSITION_LIMIT
}

/// Magnitude of a coordinate difference.
pub open spec fn abs_int(a: int) -> int {
    if a >= 0 {
        a
    } else {
        -a
    }
}

/// The win condition: the player's center is within `EXIT_MARGIN` of the
/// exit on both axes.
pub open spec fn spec_in_exit(exit: Exit, player: Position) -> bool {
    &&& abs_int(exit.x - player.x) < EXIT_MARGIN
    &&& abs_int(exit.y - player.y) < EXIT_MARGIN
}

/// Decides whether the player at `player` has reached `exit`.
pub fn is_in_exit(exit: &Exit, player: &Position) -> (r: bool)
    requires
        -POSITION_LIMIT <= exit.x <= POSITION_LIMIT,
        -POSITION_LIMIT <= exit.y <= POSITION_LIMIT,
        crate::physics::valid_position(*player),
    ensures
        r == spec_in_exit(*exit, *player),
{
    let dx = exit.x - player.x;
    let dy = exit.y - player.y;
    let adx = if dx >= 0 { dx } else { -dx };
    let ady = if dy >= 0 { dy } else { -dy };
    adx < EXIT_MARGIN && ady < EXIT_MARGIN
}

/// Whitespace for the purposes of the level text format: space, tab,
/// carriage return, line feed.
pub open spec fn is_space(b: u8) -> bool {
    b == 32 || b == 9 || b == 10 || b == 13
}

/// Splitting `s` on `sep`: the sequence of (possibly empty) chunks between
/// separators; always at least one chunk.
pub open spec fn split_on(s: Seq<u8>, sep: u8) -> Seq<Seq<u8>>
    decreases s.len(),
{
    if s.len() == 0 {
        seq![Seq::<u8>::empty()]
    } else {
        let rest = split_on(s.drop_last(), sep);
        if s.last() == sep {
            rest.push(Seq::<u8>::empty())
        } else {
            rest.update(rest.len() - 1, rest.last().push(s.last()))
        }
    }
}

/// Splits a byte string on a separator.
pub fn split_bytes(s: &Vec<u8>, sep: u8) -> (r: Vec<Vec<u8>>)
    ensures
        r@.map_values(|v: Vec<u8>| v@) == split_on(s@, sep),
        r@.len() >= 1,
{
    let mut segs: Vec<Vec<u8>> = Vec::new();
    segs.push(Vec::new());
    proof {
        assert(s@.take(0) =~= Seq::<u8>::empty());
        assert(segs@.map_values(|v: Vec<u8>| v@) =~= split_on(s@.take(0), sep));
    }
    let n = s.len();
    for i in 0..n
        invariant
            n == s@.len(),
            segs@.len() >= 1,
            segs@.map_values(|v: Vec<u8>| v@) == split_on(s@.take(i as int), sep),
    {
        proof {
            assert(s@.take(i + 1).drop_last() =~= s@.take(i as int));
            assert(s@.take(i + 1).last() == s@[i as int]);
        }
        let ghost before = segs@.map_values(|v: Vec<u8>| v@);
        if s[i] == sep {
            segs.push(Vec::new());
            proof {
                assert(segs@.map_values(|v: Vec<u8>| v@) =~= before.push(Seq::<u8>::empty()));
            }
        } else {
            let last = segs.len() - 1;
            let chunk = &mut segs[last];
            chunk.push(s[i]);
            proof {
                assert(segs@.map_values(|v: Vec<u8>| v@) =~= before.update(
                    before.len() - 1,
                    before.last().push(s@[i as int]),
                ));
            }
        }
    }
    proof {
        assert(s@.take(n as int) =~= s@);
    }
    segs
}

/// `s` with leading whitespace removed.
pub open spec fn trim_front(s: Seq<u8>) -> Seq<u8>
    decreases s.len(),
{
    if s.len() > 0 && is_space(s[0]) {
        trim_front(s.skip(1))
    } else {
        s
    }
}

/// `s` with trailing whitespace removed.
pub open spec fn trim_back(s: Seq<u8>) -> Seq<u8>
    decreases s.len(),
{
    if s.len() > 0 && is_space(s.last()) {
        trim_back(s.drop_last())
    } else {
        s
    }
}

/// `s` with whitespace removed at both ends.
pub open spec fn trimmed(s: Seq<u8>) -> Seq<u8> {
    trim_back(trim_front(s))
}

/// Removes whitespace at both ends of a byte string.
pub fn trim_bytes(s: &Vec<u8>) -> (r: Vec<u8>)
    ensures
        r@ == trimmed(s@),
{
    let n = s.len();
    proof {
        assert(s@.skip(0) =~= s@);
    }
    let mut start: usize = 0;
    while start < n && (s[start] == 32 || s[start] == 9 || s[start] == 10 || s[start] == 13)
        invariant
            n == s@.len(),
            0 <= start <= n,
            trim_front(s@) == trim_front(s@.skip(start as int)),
        decreases n - start,
    {
        proof {
            assert(s@.skip(start as int).skip(1) =~= s@.skip(start as int + 1));
        }
        start = start + 1;
    }
    proof {
        assert(trim_front(s@) == s@.skip(start as int));
    }
    let ghost kept = s@.skip(start as int);
    proof {
        assert(kept =~= s@.subrange(start as int, n as int));
    }
    let mut end: usize = n;
    while end > start && (s[end - 1] == 32 || s[end - 1] == 9 || s[end - 1] == 10 || s[end - 1]
        == 13)
        invariant
            n == s@.len(),
            0 <= start <= end <= n,
            kept == s@.skip(start as int),
            trim_front(s@) == kept,
            start < n ==> !is_space(s@[start as int]),
            trim_back(kept) == trim_back(s@.subrange(start as int, end as int)),
        decreases end,
    {
        proof {
            assert(s@.subrange(start as int, end as int).drop_last() =~= s@.subrange(
                start as int,
                end as int - 1,
            ));
            assert(s@.subrange(start as int, end as int).last() == s@[end - 1]);
        }
        end = end - 1;
    }
    proof {
        let sub = s@.subrange(start as int, end as int);
        assert(trim_back(sub) == sub);
    }
    let mut out: Vec<u8> = Vec::new();
    let mut i = start;
    while i < end
        invariant
            start <= i <= end <= n,
            n == s@.len(),
            out@ == s@.subrange(start as int, i as int),
        decreases end - i,
    {
        out.push(s[i]);
        proof {
            assert(s@.subrange(start as int, i as int + 1) =~= s@.subrange(
                start as int,
                i as int,
            ).push(s@[i as int]));
        }
        i = i + 1;
    }
    out
}

/// Why loading a level fails.
#[derive(Clone, Copy, Debug, PartialEq, Eq, Structural)]
pub enum LevelError {
    /// The level text has fewer than the four `;`-separated segments.
    MissingSegments,
    /// A platform, object or exit entry has the wrong number of fields.
    MalformedEntry,
    /// A field is not a decimal number.
    BadNumber,
    /// A coordinate's magnitude is beyond what a level may use.
    NumberOutOfRange,
    /// A rectangle's low bound exceeds its high bound.
    InvalidBounds,
    /// A level is already loaded; clear it before loading another.
    AlreadyLoaded,
}

/// Magnitude bound (exclusive) on level coordinates, in milli-units.
pub const COORD_LIMIT: i64 = 2_000_000_000;

/// Largest whole-unit part a level coordinate may carry.
pub const MAX_WHOLE_UNITS: i64 = 1_999_999;

/// An ASCII decimal digit.
pub open spec fn is_digit(b: u8) -> bool {
    48 <= b <= 57
}

/// The value of a digit byte.
pub open spec fn digit_val(b: u8) -> int {
    b - 48
}

/// Every byte of `s` is a digit.
pub open spec fn all_digits(s: Seq<u8>) -> bool {
    forall|i: int| 0 <= i < s.len() ==> is_digit(#[trigger] s[i])
}

/// The number a run of digit bytes denotes.
pub open spec fn digits_value(s: Seq<u8>) -> int
    decreases s.len(),
{
    if s.len() == 0 {
        0
    } else {
        digits_value(s.drop_last()) * 10 + digit_val(s.last())
    }
}

pub proof fn lemma_digits_value_nonneg(s: Seq<u8>)
    requires
        all_digits(s),
    ensures
        digits_value(s) >= 0,
    decreases s.len(),
{
    if s.len() > 0 {
        assert(all_digits(s.drop_last()));
        lemma_digits_value_nonneg(s.drop_last());
    }
}

/// A run of digits denotes at least what any of its prefixes denotes.
pub proof fn lemma_digits_value_prefix_le(s: Seq<u8>, i: int)
    requires
        all_digits(s),
        0 <= i <= s.len(),
    ensures
        digits_value(s.take(i)) <= digits_value(s),
    decreases s.len(),
{
    if i < s.len() {
        assert(all_digits(s.drop_last()));
        assert(s.drop_last().take(i) =~= s.take(i));
        lemma_digits_value_prefix_le(s.drop_last(), i);
        lemma_digits_value_nonneg(s.drop_last());
    } else {
        assert(s.take(i) =~= s);
    }
}

proof fn lemma_digits_value1(s: Seq<u8>)
    requires
        s.len() == 1,
    ensures
        digits_value(s) == digit_val(s[0]),
{
    assert(s.drop_last() =~= Seq::<u8>::empty());
    assert(digits_value(Seq::<u8>::empty()) == 0);
}

proof fn lemma_digits_value2(s: Seq<u8>)
    requires
        s.len() == 2,
    ensures
        digits_value(s) == 10 * digit_val(s[0]) + digit_val(s[1]),
{
    lemma_digits_value1(s.drop_last());
    assert(s.drop_last()[0] == s[0]);
}

proof fn lemma_digits_value3(s: Seq<u8>)
    requires
        s.len() == 3,
    ensures
        digits_value(s) == 100 * digit_val(s[0]) + 10 * digit_val(s[1]) + digit_val(s[2]),
{
    lemma_digits_value2(s.drop_last());
    assert(s.drop_last()[0] == s[0] && s.drop_last()[1] == s[1]);
}

/// The position of the first occurrence of `b` in `s`.
pub open spec fn find_byte(s: Seq<u8>, b: u8) -> Option<int>
    decreases s.len(),
{
    if s.len() == 0 {
        Option::None
    } else if s[0] == b {
        Option::Some(0int)
    } else {
        match find_byte(s.skip(1), b) {
            Option::Some(i) => Option::Some(i + 1),
            Option::None => Option::None,
        }
    }
}

/// Where `b` does not occur before `i`, the first occurrence in `s` is the
/// first occurrence at or past `i`.
pub proof fn lemma_find_byte_from(s: Seq<u8>, b: u8, i: int)
    requires
        0 <= i <= s.len(),
        forall|k: int| 0 <= k < i ==> #[trigger] s[k] != b,
    ensures
        find_byte(s, b) == match find_byte(s.skip(i), b) {
            Option::Some(j) => Option::Some(j + i),
            Option::None => Option::None::<int>,
        },
    decreases i,
{
    if i == 0 {
        assert(s.skip(0) =~= s);
    } else {
        lemma_find_byte_from(s, b, i - 1);
        assert(s.skip(i - 1).skip(1) =~= s.skip(i));
        assert(s.skip(i - 1)[0] == s[i - 1]);
    }
}

/// Milli-units denoted by a fractional digit run: the first three digits,
/// padded with zeros; digits past milli precision are dropped.
pub open spec fn frac_milli(s: Seq<u8>) -> int {
    if s.len() == 1 {
        100 * digit_val(s[0])
    } else if s.len() == 2 {
        10 * digits_value(s)
    } else {
        digits_value(s.take(3))
    }
}

/// Grammar of an unsigned coordinate: a non-empty digit run, optionally
/// followed by a dot and a non-empty digit run; the value is in
/// milli-units.
pub open spec fn parse_unsigned_milli(s: Seq<u8>) -> Option<int> {
    match find_byte(s, 46) {
        Option::None => if s.len() > 0 && all_digits(s) {
            Option::Some(1000 * digits_value(s))
        } else {
            Option::None
        },
        Option::Some(i) => {
            let ip = s.take(i);
            let fp = s.skip(i + 1);
            if ip.len() > 0 && fp.len() > 0 && all_digits(ip) && all_digits(fp) {
                Option::Some(1000 * digits_value(ip) + frac_milli(fp))
            } else {
                Option::None
            }
        },
    }
}

/// Grammar of a coordinate: an optional minus sign, then an unsigned
/// coordinate.
pub open spec fn parse_number_milli(s: Seq<u8>) -> Option<int> {
    if s.len() > 0 && s[0] == 45 {
        match parse_unsigned_milli(s.skip(1)) {
            Option::Some(v) => Option::Some(-v),
            Option::None => Option::None,
        }
    } else {
        parse_unsigned_milli(s)
    }
}

/// A parsed coordinate: the denoted milli-unit value where the field is a
/// decimal number of bounded magnitude, else which error it draws.
pub open spec fn spec_parse_coord(s: Seq<u8>) -> Result<int, LevelError> {
    match parse_number_milli(s) {
        Option::None => Result::Err(LevelError::BadNumber),
        Option::Some(v) => if -COORD_LIMIT < v < COORD_LIMIT {
            Result::Ok(v)
        } else {
            Result::Err(LevelError::NumberOutOfRange)
        },
    }
}

/// Whether the bytes `from..to` of `s` are all digits.
fn check_digits(s: &Vec<u8>, from: usize, to: usize) -> (r: bool)
    requires
        from <= to <= s@.len(),
    ensures
        r == all_digits(s@.subrange(from as int, to as int)),
{
    let mut j = from;
    while j < to
        invariant
            from <= j <= to <= s@.len(),
            forall|k: int| from <= k < j ==> is_digit(#[trigger] s@[k]),
        decreases to - j,
    {
        if s[j] < 48 || s[j] > 57 {
            proof {
                assert(s@.subrange(from as int, to as int)[j - from] == s@[j as int]);
            }
            return false;
        }
        j = j + 1;
    }
    proof {
        let sub = s@.subrange(from as int, to as int);
        assert forall|m: int| 0 <= m < sub.len() implies is_digit(#[trigger] sub[m]) by {
            assert(sub[m] == s@[from + m]);
        }
    }
    true
}

/// The value of the digit run `from..to`, or `None` when it is beyond
/// `MAX_WHOLE_UNITS`.
fn digits_value_capped(s: &Vec<u8>, from: usize, to: usize) -> (r: Option<i64>)
    requires
        from <= to <= s@.len(),
        all_digits(s@.subrange(from as int, to as int)),
    ensures
        match r {
            Option::Some(v) => v == digits_value(s@.subrange(from as int, to as int)) && 0 <= v
                <= MAX_WHOLE_UNITS,
            Option::None => digits_value(s@.subrange(from as int, to as int)) > MAX_WHOLE_UNITS,
        },
{
    let ghost whole = s@.subrange(from as int, to as int);
    let mut dv: i64 = 0;
    let mut k = from;
    while k < to
        invariant
            from <= k <= to <= s@.len(),
            all_digits(whole),
            whole == s@.subrange(from as int, to as int),
            dv == digits_value(s@.subrange(from as int, k as int)),
            0 <= dv <= MAX_WHOLE_UNITS,
        decreases to - k,
    {
        proof {
            assert(whole[k - from] == s@[k as int]);
            assert(s@.subrange(from as int, k as int + 1).drop_last() =~= s@.subrange(
                from as int,
                k as int,
            ));
            assert(s@.subrange(from as int, k as int + 1).last() == s@[k as int]);
        }
        let d = (s[k] - 48) as i64;
        let next = dv * 10 + d;
        if next > MAX_WHOLE_UNITS {
            proof {
                assert(whole.take(k + 1 - from) =~= s@.subrange(from as int, k as int + 1));
                lemma_digits_value_prefix_le(whole, k + 1 - from);
            }
            return Option::None;
        }
        dv = next;
        k = k + 1;
    }
    Option::Some(dv)
}

/// Parses one coordinate field into milli-units.
#[verifier::rlimit(60)]
pub fn parse_coord(s: &Vec<u8>) -> (r: Result<i64, LevelError>)
    ensures
        match r {
            Result::Ok(v) => spec_parse_coord(s@) == Result::<int, LevelError>::Ok(v as int),
            Result::Err(e) => spec_parse_coord(s@) == Result::Err::<int, LevelError>(e),
        },
{
    let n = s.len();
    let neg = n > 0 && s[0] == 45;
    let start: usize = if neg {
        1
    } else {
        0
    };
    let ghost u = s@.skip(start as int);
    proof {
        if !neg {
            assert(u =~= s@);
        }
    }

    // Find the first dot of the unsigned part.
    let mut dot_idx: usize = n;
    let mut found = false;
    let mut j = start;
    while j < n
        invariant
            start <= j <= n == s@.len(),
            !found ==> dot_idx == n && forall|k: int| start <= k < j ==> #[trigger] s@[k] != 46,
            found ==> start <= dot_idx < j && s@[dot_idx as int] == 46 && forall|k: int|
                start <= k < dot_idx ==> #[trigger] s@[k] != 46,
        decreases n - j,
    {
        if !found && s[j] == 46 {
            dot_idx = j;
            found = true;
        }
        j = j + 1;
    }
    proof {
        if found {
            assert forall|k: int| 0 <= k < dot_idx - start implies #[trigger] u[k] != 46 by {
                assert(u[k] == s@[start + k]);
            }
            lemma_find_byte_from(u, 46, dot_idx - start);
            assert(u.skip(dot_idx - start)[0] == s@[dot_idx as int]);
            assert(find_byte(u.skip(dot_idx - start), 46) == Option::Some(0int));
            assert(find_byte(u, 46) == Option::Some(dot_idx - start as int));
        } else {
            assert forall|k: int| 0 <= k < u.len() implies #[trigger] u[k] != 46 by {
                assert(u[k] == s@[start + k]);
            }
            lemma_find_byte_from(u, 46, u.len() as int);
            assert(u.skip(u.len() as int) =~= Seq::<u8>::empty());
            assert(find_byte(u, 46) is None);
        }
    }

    let int_to = if found {
        dot_idx
    } else {
        n
    };
    proof {
        assert(u.take(int_to - start) =~= s@.subrange(start as int, int_to as int));
    }
    if int_to == start {
        // Empty integer part (also the bare "-" and the empty field).
        return Result::Err(LevelError::BadNumber);
    }
    if !check_digits(s, start, int_to) {
        return Result::Err(LevelError::BadNumber);
    }
    let mut frac: i64 = 0;
    if found {
        let ghost fp = u.skip(dot_idx - start + 1);
        proof {
            assert(fp =~= s@.subrange(dot_idx as int + 1, n as int));
        }
        if dot_idx + 1 == n {
            // Empty fraction part.
            return Result::Err(LevelError::BadNumber);
        }
        if !check_digits(s, dot_idx + 1, n) {
            return Result::Err(LevelError::BadNumber);
        }
        let flen = n - (dot_idx + 1);
        proof {
            let sub = s@.subrange(dot_idx as int + 1, n as int);
            assert(sub[0] == s@[dot_idx + 1]);
            if flen >= 2 {
                assert(sub[1] == s@[dot_idx + 2]);
            }
            if flen >= 3 {
                assert(sub[2] == s@[dot_idx + 3]);
            }
        }
        if flen == 1 {
            frac = (s[dot_idx + 1] - 48) as i64 * 100;
            proof {
                assert(fp[0] == s@[dot_idx + 1]);
            }
        } else if flen == 2 {
            frac = ((s[dot_idx + 1] - 48) as i64 * 10 + (s[dot_idx + 2] - 48) as i64) * 10;
            proof {
                assert(fp[0] == s@[dot_idx + 1] && fp[1] == s@[dot_idx + 2]);
                lemma_digits_value2(fp);
            }
        } else {
            frac = (s[dot_idx + 1] - 48) as i64 * 100 + (s[dot_idx + 2] - 48) as i64 * 10 + (
            s[dot_idx + 3] - 48) as i64;
            proof {
                let t = fp.take(3);
                assert(t[0] == s@[dot_idx + 1] && t[1] == s@[dot_idx + 2] && t[2] == s@[dot_idx
                    + 3]);
                lemma_digits_value3(t);
            }
        }
        proof {
            assert(0 <= frac <= 999);
        }
    }
    let dv = match digits_value_capped(s, start, int_to) {
        Option::Some(v) => v,
        Option::None => {
            return Result::Err(LevelError::NumberOutOfRange);
        },
    };
    let magnitude = dv * 1000 + frac;
    let value = if neg {
        -magnitude
    } else {
        magnitude
    };
    Result::Ok(value)
}

impl Platform {
    /// The four edges as mathematical integers.
    pub open spec fn bounds(self) -> (int, int, int, int) {
        (self.lowx as int, self.highx as int, self.lowy as int, self.highy as int)
    }
}

/// The entry that ends a platform or object list.
pub open spec fn null_entry() -> Seq<u8> {
    seq![78u8, 85u8, 76u8, 76u8]
}

/// Grammar of one rectangle entry: four space-separated coordinates, low
/// before high on each axis.
pub open spec fn spec_parse_rect(s: Seq<u8>) -> Result<(int, int, int, int), LevelError> {
    let fields = split_on(s, 32);
    if fields.len() != 4 {
        Result::Err(LevelError::MalformedEntry)
    } else {
        match spec_parse_coord(fields[0]) {
            Result::Err(e) => Result::Err(e),
            Result::Ok(a) => match spec_parse_coord(fields[1]) {
                Result::Err(e) => Result::Err(e),
                Result::Ok(b) => match spec_parse_coord(fields[2]) {
                    Result::Err(e) => Result::Err(e),
                    Result::Ok(c) => match spec_parse_coord(fields[3]) {
                        Result::Err(e) => Result::Err(e),
                        Result::Ok(d) => if a <= b && c <= d {
                            Result::Ok((a, b, c, d))
                        } else {
                            Result::Err(LevelError::InvalidBounds)
                        },
                    },
                },
            },
        }
    }
}

/// Grammar of a rectangle list: entries in order, each trimmed, stopping
/// at the first `NULL` entry; the first bad entry decides the error.
pub open spec fn spec_parse_rects(entries: Seq<Seq<u8>>) -> Result<
    Seq<(int, int, int, int)>,
    LevelError,
>
    decreases entries.len(),
{
    if entries.len() == 0 {
        Result::Ok(Seq::empty())
    } else {
        let e = trimmed(entries[0]);
        if e == null_entry() {
            Result::Ok(Seq::empty())
        } else {
            match spec_parse_rect(e) {
                Result::Err(err) => Result::Err(err),
                Result::Ok(r) => match spec_parse_rects(entries.skip(1)) {
                    Result::Err(err) => Result::Err(err),
                    Result::Ok(rest) => Result::Ok(seq![r].add(rest)),
                },
            }
        }
    }
}

/// Grammar of the exit segment: two space-separated coordinates.
pub open spec fn spec_parse_exit(s: Seq<u8>) -> Result<(int, int), LevelError> {
    let fields = split_on(trimmed(s), 32);
    if fields.len() != 2 {
        Result::Err(LevelError::MalformedEntry)
    } else {
        match spec_parse_coord(fields[0]) {
            Result::Err(e) => Result::Err(e),
            Result::Ok(x) => match spec_parse_coord(fields[1]) {
                Result::Err(e) => Result::Err(e),
                Result::Ok(y) => Result::Ok((x, y)),
            },
        }
    }
}

/// What a level description denotes: platform bounds, object spawn bounds,
/// and the exit point.
#[verifier::ext_equal]
pub struct LevelView {
    pub platforms: Seq<(int, int, int, int)>,
    pub objects: Seq<(int, int, int, int)>,
    pub exit: (int, int),
}

/// Grammar of a whole level description: at least four `;`-separated
/// segments (a header that is ignored, platforms, objects, the exit), the
/// lists split on `,`.
pub open spec fn spec_parse_level(data: Seq<u8>) -> Result<LevelView, LevelError> {
    let segs = split_on(data, 59);
    if segs.len() < 4 {
        Result::Err(LevelError::MissingSegments)
    } else {
        match spec_parse_rects(split_on(segs[1], 44)) {
            Result::Err(e) => Result::Err(e),
            Result::Ok(platforms) => match spec_parse_rects(split_on(segs[2], 44)) {
                Result::Err(e) => Result::Err(e),
                Result::Ok(objects) => match spec_parse_exit(segs[3]) {
                    Result::Err(e) => Result::Err(e),
                    Result::Ok(exit) => Result::Ok(LevelView { platforms, objects, exit }),
                },
            },
        }
    }
}

/// A loaded level: the static geometry, the spawn rectangles of movable
/// objects, and the exit.
#[derive(Debug, PartialEq, Eq)]
pub struct LevelData {
    pub platforms: Vec<Platform>,
    pub objects: Vec<Platform>,
    pub exit: Exit,
}

impl View for LevelData {
    type V = LevelView;

    open spec fn view(&self) -> LevelView {
        LevelView {
            platforms: self.platforms@.map_values(|p: Platform| p.bounds()),
            objects: self.objects@.map_values(|p: Platform| p.bounds()),
            exit: (self.exit.x as int, self.exit.y as int),
        }
    }
}

/// Every rectangle of the level is well formed and every coordinate is
/// within `COORD_LIMIT`.
pub open spec fn wf_level(ld: LevelData) -> bool {
    &&& forall|i: int|
        0 <= i < ld.platforms@.len() ==> valid_platform(#[trigger] ld.platforms@[i])
    &&& forall|i: int| 0 <= i < ld.objects@.len() ==> valid_platform(#[trigger] ld.objects@[i])
    &&& -COORD_LIMIT < ld.exit.x < COORD_LIMIT
    &&& -COORD_LIMIT < ld.exit.y < COORD_LIMIT
}

/// Whether `v` is the list-terminating `NULL` entry.
fn is_null_entry(v: &Vec<u8>) -> (r: bool)
    ensures
        r == (v@ == null_entry()),
{
    if v.len() == 4 && v[0] == 78 && v[1] == 85 && v[2] == 76 && v[3] == 76 {
        proof {
            assert(v@ =~= null_entry());
        }
        true
    } else {
        proof {
            if v@ == null_entry() {
                assert(v@.len() == 4);
                assert(v@[0] == 78 && v@[1] == 85 && v@[2] == 76 && v@[3] == 76);
            }
        }
        false
    }
}

/// Parses one rectangle entry (already trimmed).
fn parse_rect(entry: &Vec<u8>) -> (r: Result<Platform, LevelError>)
    ensures
        match r {
            Result::Ok(p) => spec_parse_rect(entry@) == Result::<(int, int, int, int),
                LevelError,
            >::Ok(p.bounds()) && valid_platform(p),
            Result::Err(e) => spec_parse_rect(entry@) == Result::<(int, int, int, int),
                LevelError,
            >::Err(e),
        },
{
    let fields = split_bytes(entry, 32);
    if fields.len() != 4 {
        return Result::Err(LevelError::MalformedEntry);
    }
    proof {
        let m = fields@.map_values(|v: Vec<u8>| v@);
        assert(m[0] == fields@[0]@ && m[1] == fields@[1]@ && m[2] == fields@[2]@ && m[3]
            == fields@[3]@);
    }
    let a = match parse_coord(&fields[0]) {
        Result::Ok(v) => v,
        Result::Err(e) => {
            return Result::Err(e);
        },
    };
    let b = match parse_coord(&fields[1]) {
        Result::Ok(v) => v,
        Result::Err(e) => {
            return Result::Err(e);
        },
    };
    let c = match parse_coord(&fields[2]) {
        Result::Ok(v) => v,
        Result::Err(e) => {
            return Result::Err(e);
        },
    };
    let d = match parse_coord(&fields[3]) {
        Result::Ok(v) => v,
        Result::Err(e) => {
            return Result::Err(e);
        },
    };
    if a <= b && c <= d {
        Result::Ok(Platform { lowx: a, highx: b, lowy: c, highy: d })
    } else {
        Result::Err(LevelError::InvalidBounds)
    }
}

/// Parses a rectangle list up to its `NULL` terminator.
fn parse_rects(entries: &Vec<Vec<u8>>) -> (r: Result<Vec<Platform>, LevelError>)
    ensures
        match r {
            Result::Ok(ps) => spec_parse_rects(entries@.map_values(|v: Vec<u8>| v@))
                == Result::<Seq<(int, int, int, int)>, LevelError>::Ok(
                ps@.map_values(|p: Platform| p.bounds()),
            ) && forall|i: int| 0 <= i < ps@.len() ==> valid_platform(#[trigger] ps@[i]),
            Result::Err(e) => spec_parse_rects(entries@.map_values(|v: Vec<u8>| v@))
                == Result::<Seq<(int, int, int, int)>, LevelError>::Err(e),
        },
{
    let ghost es = entries@.map_values(|v: Vec<u8>| v@);
    let mut acc: Vec<Platform> = Vec::new();
    proof {
        assert(es.skip(0) =~= es);
        assert(acc@.map_values(|p: Platform| p.bounds()) =~= Seq::<(int, int, int, int)>::empty());
        if spec_parse_rects(es) is Ok {
            let rest = spec_parse_rects(es)->Ok_0;
            assert(Seq::<(int, int, int, int)>::empty().add(rest) =~= rest);
        }
    }
    let n = entries.len();
    for i in 0..n
        invariant
            n == entries@.len(),
            es == entries@.map_values(|v: Vec<u8>| v@),
            forall|k: int| 0 <= k < acc@.len() ==> valid_platform(#[trigger] acc@[k]),
            match spec_parse_rects(es.skip(i as int)) {
                Result::Ok(rest) => spec_parse_rects(es) == Result::<
                    Seq<(int, int, int, int)>,
                    LevelError,
                >::Ok(acc@.map_values(|p: Platform| p.bounds()).add(rest)),
                Result::Err(e) => spec_parse_rects(es) == Result::<
                    Seq<(int, int, int, int)>,
                    LevelError,
                >::Err(e),
            },
    {
        proof {
            assert(es.skip(i as int)[0] == es[i as int]);
            assert(es[i as int] == entries@[i as int]@);
            assert(es.skip(i as int).skip(1) =~= es.skip(i as int + 1));
        }
        let e = trim_bytes(&entries[i]);
        if is_null_entry(&e) {
            proof {
                assert(spec_parse_rects(es.skip(i as int)) == Result::<
                    Seq<(int, int, int, int)>,
                    LevelError,
                >::Ok(Seq::empty()));
                assert(acc@.map_values(|p: Platform| p.bounds()).add(Seq::empty())
                    =~= acc@.map_values(|p: Platform| p.bounds()));
            }
            return Result::Ok(acc);
        }
        match parse_rect(&e) {
            Result::Err(err) => {
                return Result::Err(err);
            },
            Result::Ok(p) => {
                let ghost before = acc@.map_values(|pp: Platform| pp.bounds());
                acc.push(p);
                proof {
                    assert(acc@.map_values(|pp: Platform| pp.bounds()) =~= before.push(
                        p.bounds(),
                    ));
                    if spec_parse_rects(es.skip(i as int + 1)) is Ok {
                        let rest = spec_parse_rects(es.skip(i as int + 1))->Ok_0;
                        assert(before.add(seq![p.bounds()].add(rest)) =~= before.push(
                            p.bounds(),
                        ).add(rest));
                    }
                }
            },
        }
    }
    proof {
        assert(es.skip(n as int) =~= Seq::<Seq<u8>>::empty());
        assert(spec_parse_rects(es.skip(n as int)) == Result::<
            Seq<(int, int, int, int)>,
            LevelError,
        >::Ok(Seq::empty()));
        assert(acc@.map_values(|p: Platform| p.bounds()).add(Seq::empty()) =~= acc@.map_values(
            |p: Platform| p.bounds(),
        ));
    }
    Result::Ok(acc)
}

/// Parses the exit segment.
fn parse_exit(seg: &Vec<u8>) -> (r: Result<Exit, LevelError>)
    ensures
        match r {
            Result::Ok(e) => spec_parse_exit(seg@) == Result::<(int, int), LevelError>::Ok(
                (e.x as int, e.y as int),
            ) && -COORD_LIMIT < e.x < COORD_LIMIT && -COORD_LIMIT < e.y < COORD_LIMIT,
            Result::Err(err) => spec_parse_exit(seg@) == Result::<(int, int), LevelError>::Err(
                err,
            ),
        },
{
    let t = trim_bytes(seg);
    let fields = split_bytes(&t, 32);
    if fields.len() != 2 {
        return Result::Err(LevelError::MalformedEntry);
    }
    proof {
        let m = fields@.map_values(|v: Vec<u8>| v@);
        assert(m[0] == fields@[0]@ && m[1] == fields@[1]@);
    }
    let x = match parse_coord(&fields[0]) {
        Result::Ok(v) => v,
        Result::Err(e) => {
            return Result::Err(e);
        },
    };
    let y = match parse_coord(&fields[1]) {
        Result::Ok(v) => v,
        Result::Err(e) => {
            return Result::Err(e);
        },
    };
    Result::Ok(Exit { x, y })
}

/// Parses a level description: a header segment that is ignored, the
/// platform list, the object list, and the exit point. The first offending
/// field decides the error; a level is returned exactly when the whole
/// description is well formed.
pub fn level_data_reader(data: &Vec<u8>) -> (r: Result<LevelData, LevelError>)
    ensures
        match r {
            Result::Ok(ld) => spec_parse_level(data@) == Result::<LevelView, LevelError>::Ok(ld@)
                && wf_level(ld),
            Result::Err(e) => spec_parse_level(data@) == Result::<LevelView, LevelError>::Err(e),
        },
{
    let segs = split_bytes(data, 59);
    if segs.len() < 4 {
        return Result::Err(LevelError::MissingSegments);
    }
    proof {
        let m = segs@.map_values(|v: Vec<u8>| v@);
        assert(m[1] == segs@[1]@ && m[2] == segs@[2]@ && m[3] == segs@[3]@);
    }
    let platform_entries = split_bytes(&segs[1], 44);
    let platforms = match parse_rects(&platform_entries) {
        Result::Ok(ps) => ps,
        Result::Err(e) => {
            return Result::Err(e);
        },
    };
    let object_entries = split_bytes(&segs[2], 44);
    let objects = match parse_rects(&object_entries) {
        Result::Ok(ps) => ps,
        Result::Err(e) => {
            return Result::Err(e);
        },
    };
    let exit = match parse_exit(&segs[3]) {
        Result::Ok(e) => e,
        Result::Err(e) => {
            return Result::Err(e);
        },
    };
    let ld = LevelData { platforms, objects, exit };
    proof {
        let lv = spec_parse_level(data@)->Ok_0;
        assert(ld@ =~= lv);
    }
    Result::Ok(ld)
}

/// The level lifecycle: nothing loaded, or one loaded level.
pub enum LevelState {
    Unloaded,
    Loaded(LevelData),
}

/// Loads a level from its text. Loading over an already loaded level is
/// rejected and changes nothing; a parse failure leaves the state
/// unloaded and reports why.
pub fn load_level(state: &mut LevelState, data: &Vec<u8>) -> (r: Result<(), LevelError>)
    ensures
        (*old(state)) is Loaded ==> r == Result::<(), LevelError>::Err(LevelError::AlreadyLoaded)
            && *final(state) == *old(state),
        (*old(state)) is Unloaded ==> match spec_parse_level(data@) {
            Result::Ok(lv) => r is Ok && (*final(state) matches LevelState::Loaded(ld) && ld@
                == lv && wf_level(ld)),
            Result::Err(e) => r == Result::<(), LevelError>::Err(e)
                && *final(state) is Unloaded,
        },
{
    match state {
        LevelState::Loaded(_) => Result::Err(LevelError::AlreadyLoaded),
        LevelState::Unloaded => {
            match level_data_reader(data) {
                Result::Ok(ld) => {
                    *state = LevelState::Loaded(ld);
                    Result::Ok(())
                },
                Result::Err(e) => Result::Err(e),
            }
        },
    }
}

/// Tears the level down: afterwards nothing is loaded. Bodies spawned for
/// movable objects are the caller's to handle.
pub fn clear_level(state: &mut LevelState)
    ensures
        *final(state) is Unloaded,
{
    *state = LevelState::Unloaded;
}

/// Center of a rectangle side, rounded toward zero.
pub open spec fn rect_center(low: int, high: int) -> int {
    div_trunc(low + high, 2)
}

/// Derives the drawable center and size of each platform:
/// `center = (low + high) / 2`, `size = high - low`, per axis.
pub fn spawn_platforms(platforms: &Vec<Platform>) -> (r: Vec<(Position, EntitySize)>)
    requires
        forall|i: int|
            0 <= i < platforms@.len() ==> valid_platform(#[trigger] platforms@[i]),
    ensures
        r@.len() == platforms@.len(),
        forall|i: int| 0 <= i < platforms@.len() ==> {
            let p = platforms@[i];
            let (pos, sz) = #[trigger] r@[i];
            &&& pos.x == rect_center(p.lowx as int, p.highx as int)
            &&& pos.y == rect_center(p.lowy as int, p.highy as int)
            &&& sz.width == p.highx - p.lowx
            &&& sz.height == p.highy - p.lowy
        },
{
    let mut out: Vec<(Position, EntitySize)> = Vec::new();
    let n = platforms.len();
    for i in 0..n
        invariant
            n == platforms@.len(),
            forall|k: int|
                0 <= k < n ==> valid_platform(#[trigger] platforms@[k]),
            out@.len() == i,
            forall|k: int| 0 <= k < i ==> {
                let p = platforms@[k];
                let (pos, sz) = #[trigger] out@[k];
                &&& pos.x == rect_center(p.lowx as int, p.highx as int)
                &&& pos.y == rect_center(p.lowy as int, p.highy as int)
                &&& sz.width == p.highx - p.lowx
                &&& sz.height == p.highy - p.lowy
            },
    {
        let p = platforms[i];
        let pos = Position { x: (p.lowx + p.highx) / 2, y: (p.lowy + p.highy) / 2 };
        let sz = EntitySize { width: p.highx - p.lowx, height: p.highy - p.lowy };
        out.push((pos, sz));
    }
    out
}

/// Spawns one body per object rectangle: centered in its spawn rectangle,
/// sized to it, at rest.
pub fn spawn_objects(objects: &Vec<Platform>) -> (r: Vec<Body>)
    requires
        forall|i: int| 0 <= i < objects@.len() ==> valid_platform(#[trigger] objects@[i]),
        forall|i: int| 0 <= i < objects@.len() ==> {
            let p = #[trigger] objects@[i];
            &&& -COORD_LIMIT < p.lowx && p.highx < COORD_LIMIT
            &&& -COORD_LIMIT < p.lowy && p.highy < COORD_LIMIT
        },
    ensures
        r@.len() == objects@.len(),
        forall|i: int| 0 <= i < objects@.len() ==> {
            let p = objects@[i];
            let b = #[trigger] r@[i];
            &&& b.position.x == rect_center(p.lowx as int, p.highx as int)
            &&& b.position.y == rect_center(p.lowy as int, p.highy as int)
            &&& b.size.width == p.highx - p.lowx
            &&& b.size.height == p.highy - p.lowy
            &&& b.velocity == (Velocity { x: 0, y: 0 })
            &&& crate::physics::valid_body(b)
        },
{
    let mut out: Vec<Body> = Vec::new();
    let n = objects.len();
    for i in 0..n
        invariant
            n == objects@.len(),
            forall|k: int| 0 <= k < n ==> valid_platform(#[trigger] objects@[k]),
            forall|k: int| 0 <= k < n ==> {
                let p = #[trigger] objects@[k];
                &&& -COORD_LIMIT < p.lowx && p.highx < COORD_LIMIT
                &&& -COORD_LIMIT < p.lowy && p.highy < COORD_LIMIT
            },
            out@.len() == i,
            forall|k: int| 0 <= k < i ==> {
                let p = objects@[k];
                let b = #[trigger] out@[k];
                &&& b.position.x == rect_center(p.lowx as int, p.highx as int)
                &&& b.position.y == rect_center(p.lowy as int, p.highy as int)
                &&& b.size.width == p.highx - p.lowx
                &&& b.size.height == p.highy - p.lowy
                &&& b.velocity == (Velocity { x: 0, y: 0 })
                &&& crate::physics::valid_body(b)
            },
    {
        let p = objects[i];
        let b = Body {
            position: Position { x: (p.lowx + p.highx) / 2, y: (p.lowy + p.highy) / 2 },
            velocity: Velocity { x: 0, y: 0 },
            size: EntitySize { width: p.highx - p.lowx, height: p.highy - p.lowy },
        };
        out.push(b);
    }
    out
}

} // verus!
