//! Decoded channel values, result records, and the text they print as.
use crate::config::DisplayConfig;
use crate::text::{int_text, join, nat_text, push_int, push_nat, push_zero_padded, space_padded, zero_padded};
use chrono::{Datelike, Timelike};
use vstd::prelude::*;

verus! {

/// The wire types that a channel can negotiate.
#[derive(Debug, Clone, Copy, PartialEq, Eq, Structural)]
pub enum WireType {
    Char,
    Short,
    Enum,
    Long,
    Float,
    Double,
    String,
}

/// A server timestamp: seconds and nanoseconds since 1990-01-01 00:00:00 UTC.
#[derive(Debug, Clone, Copy, PartialEq, Eq, Structural)]
pub struct Stamp {
    pub sec: u32,
    pub nsec: u32,
}

/// Seconds between the Unix epoch and the EPICS epoch (7305 days).
pub const EPICS_EPOCH_OFFSET: u64 = 631152000;

pub const NANOS_PER_SEC: u32 = 1000000000;

/// The Unix time of a stamp, in whole seconds; nanoseconds beyond one second carry over.
pub open spec fn unix_seconds(s: Stamp) -> int {
    (s.sec as int) + (EPICS_EPOCH_OFFSET as int) + (s.nsec as int) / (NANOS_PER_SEC as int)
}

/// The nanoseconds within the second of `unix_seconds(s)`.
pub open spec fn unix_nanos(s: Stamp) -> nat {
    ((s.nsec as int) % (NANOS_PER_SEC as int)) as nat
}

/// One reading with the timestamp the server gave it.
#[derive(Debug, Clone)]
pub struct Timed<T> {
    pub stamp: Stamp,
    pub value: T,
}

/// A floating-point reading, as the display rules render it: `fixed` with five
/// decimals (the scalar form) and `plain` as the shortest text that reads back
/// to the same number (the array-element form).
#[derive(Debug, Clone)]
pub struct FloatText {
    pub fixed: String,
    pub plain: String,
}

/// A decoded reading, one variant for each supported pair of wire type and arity.
/// Strings hold their bytes up to the terminator.
#[derive(Debug, Clone)]
pub enum RawValue {
    Char(Timed<u8>),
    Short(Timed<i16>),
    Long(Timed<i32>),
    Enum(Timed<u16>),
    Float(Timed<FloatText>),
    Double(Timed<FloatText>),
    String(Timed<Vec<u8>>),
    ShortArray(Timed<Vec<i16>>),
    LongArray(Timed<Vec<i32>>),
    FloatArray(Timed<Vec<FloatText>>),
    DoubleArray(Timed<Vec<FloatText>>),
    StringArray(Timed<Vec<Vec<u8>>>),
}

/// What `String::from_utf8_lossy` makes of a byte sequence.
pub uninterp spec fn utf8_lossy(b: Seq<u8>) -> Seq<char>;

/// Relies on `String::from_utf8_lossy`: the text depends on the bytes alone, and
/// no bytes give no text.
#[verifier::external_body]
fn lossy_text(b: &Vec<u8>) -> (r: String)
    ensures
        r@ == utf8_lossy(b@),
        b@.len() == 0 ==> r@.len() == 0,
{
    String::from_utf8_lossy(b.as_slice()).into_owned()
}

pub open spec fn short_tokens(xs: Seq<i16>) -> Seq<Seq<char>> {
    xs.map_values(|x: i16| int_text(x as int))
}

pub open spec fn long_tokens(xs: Seq<i32>) -> Seq<Seq<char>> {
    xs.map_values(|x: i32| int_text(x as int))
}

pub open spec fn float_tokens(xs: Seq<FloatText>) -> Seq<Seq<char>> {
    xs.map_values(|x: FloatText| x.plain@)
}

pub open spec fn string_tokens(xs: Seq<Vec<u8>>) -> Seq<Seq<char>> {
    xs.map_values(|x: Vec<u8>| utf8_lossy(x@))
}

/// The tokens of a value: one for a scalar, one per element for an array.
pub open spec fn value_tokens(v: RawValue) -> Seq<Seq<char>> {
    match v {
        RawValue::Char(t) => seq![nat_text(t.value as nat)],
        RawValue::Short(t) => seq![int_text(t.value as int)],
        RawValue::Long(t) => seq![int_text(t.value as int)],
        RawValue::Enum(t) => seq![nat_text(t.value as nat)],
        RawValue::Float(t) => seq![t.value.fixed@],
        RawValue::Double(t) => seq![t.value.fixed@],
        RawValue::String(t) => seq![utf8_lossy(t.value@)],
        RawValue::ShortArray(t) => short_tokens(t.value@),
        RawValue::LongArray(t) => long_tokens(t.value@),
        RawValue::FloatArray(t) => float_tokens(t.value@),
        RawValue::DoubleArray(t) => float_tokens(t.value@),
        RawValue::StringArray(t) => string_tokens(t.value@),
    }
}

/// `ts` followed by `"0"` tokens up to `n` tokens.
pub open spec fn padded(ts: Seq<Seq<char>>, n: nat) -> Seq<Seq<char>> {
    if ts.len() < n {
        ts + Seq::new((n - ts.len()) as nat, |i: int| seq!['0'])
    } else {
        ts
    }
}

pub open spec fn stamp_of(v: RawValue) -> Stamp {
    match v {
        RawValue::Char(t) => t.stamp,
        RawValue::Short(t) => t.stamp,
        RawValue::Long(t) => t.stamp,
        RawValue::Enum(t) => t.stamp,
        RawValue::Float(t) => t.stamp,
        RawValue::Double(t) => t.stamp,
        RawValue::String(t) => t.stamp,
        RawValue::ShortArray(t) => t.stamp,
        RawValue::LongArray(t) => t.stamp,
        RawValue::FloatArray(t) => t.stamp,
        RawValue::DoubleArray(t) => t.stamp,
        RawValue::StringArray(t) => t.stamp,
    }
}

/// Appends one token, after a space unless it is the first.
fn push_token(out: &mut String, Ghost(ts): Ghost<Seq<Seq<char>>>, first: bool, tok: &str)
    requires
        old(out)@ == join(ts),
        first == (ts.len() == 0),
    ensures
        final(out)@ == join(ts.push(tok@)),
{
    proof {
        assert(ts.push(tok@).drop_last() =~= ts);
    }
    if !first {
        proof {
            reveal_strlit(" ");
            lemma_join_empty(ts);
        }
        out.append(" ");
    }
    out.append(tok);
    proof {
        lemma_join_empty(ts);
        assert(final(out)@ =~= join(ts.push(tok@)));
    }
}

proof fn lemma_join_empty(ts: Seq<Seq<char>>)
    ensures
        ts.len() > 0 ==> join(ts).len() >= ts.last().len(),
        ts.len() == 0 ==> join(ts).len() == 0,
        ts.len() >= 2 ==> join(ts).len() > 0,
{
    if ts.len() >= 2 {
        assert(join(ts) == join(ts.drop_last()) + seq![' '] + ts.last());
    }
}


/// The text of one integer.
fn int_token(n: i64) -> (r: String)
    ensures
        r@ == int_text(n as int),
{
    let mut t = String::new();
    push_int(&mut t, n);
    proof {
        assert(t@ =~= int_text(n as int));
    }
    t
}

/// The text of one natural number.
fn nat_token(n: u64) -> (r: String)
    ensures
        r@ == nat_text(n as nat),
{
    let mut t = String::new();
    push_nat(&mut t, n);
    proof {
        assert(t@ =~= nat_text(n as nat));
    }
    t
}

/// The texts of a sequence of strings.
pub open spec fn texts(v: Seq<String>) -> Seq<Seq<char>> {
    v.map_values(|s: String| s@)
}

/// The texts of short integers.
fn short_strings(xs: &Vec<i16>) -> (r: Vec<String>)
    ensures
        texts(r@) == short_tokens(xs@),
{
    let mut out: Vec<String> = Vec::new();
    let mut i: usize = 0;
    while i < xs.len()
        invariant
            i <= xs.len(),
            texts(out@) =~= short_tokens(xs@).take(i as int),
        decreases xs.len() - i,
    {
        let tok = int_token(xs[i] as i64);
        let ghost before = out@;
        out.push(tok);
        proof {
            assert(texts(out@) =~= texts(before).push(tok@));
            assert(short_tokens(xs@).take(i + 1) =~= short_tokens(xs@).take(i as int).push(tok@));
        }
        i = i + 1;
    }
    out
}

/// The texts of long integers.
fn long_strings(xs: &Vec<i32>) -> (r: Vec<String>)
    ensures
        texts(r@) == long_tokens(xs@),
{
    let mut out: Vec<String> = Vec::new();
    let mut i: usize = 0;
    while i < xs.len()
        invariant
            i <= xs.len(),
            texts(out@) =~= long_tokens(xs@).take(i as int),
        decreases xs.len() - i,
    {
        let tok = int_token(xs[i] as i64);
        let ghost before = out@;
        out.push(tok);
        proof {
            assert(texts(out@) =~= texts(before).push(tok@));
            assert(long_tokens(xs@).take(i + 1) =~= long_tokens(xs@).take(i as int).push(tok@));
        }
        i = i + 1;
    }
    out
}

/// The array-element texts of floating-point readings.
fn float_strings(xs: &Vec<FloatText>) -> (r: Vec<String>)
    ensures
        texts(r@) == float_tokens(xs@),
{
    let mut out: Vec<String> = Vec::new();
    let mut i: usize = 0;
    while i < xs.len()
        invariant
            i <= xs.len(),
            texts(out@) =~= float_tokens(xs@).take(i as int),
        decreases xs.len() - i,
    {
        let tok = xs[i].plain.clone();
        let ghost before = out@;
        out.push(tok);
        proof {
            assert(texts(out@) =~= texts(before).push(tok@));
            assert(float_tokens(xs@).take(i + 1) =~= float_tokens(xs@).take(i as int).push(tok@));
        }
        i = i + 1;
    }
    out
}

/// The texts of strings, decoded lossily.
fn byte_strings(xs: &Vec<Vec<u8>>) -> (r: Vec<String>)
    ensures
        texts(r@) == string_tokens(xs@),
{
    let mut out: Vec<String> = Vec::new();
    let mut i: usize = 0;
    while i < xs.len()
        invariant
            i <= xs.len(),
            texts(out@) =~= string_tokens(xs@).take(i as int),
        decreases xs.len() - i,
    {
        let tok = lossy_text(&xs[i]);
        let ghost before = out@;
        out.push(tok);
        proof {
            assert(texts(out@) =~= texts(before).push(tok@));
            assert(string_tokens(xs@).take(i + 1) =~= string_tokens(xs@).take(i as int).push(tok@));
        }
        i = i + 1;
    }
    out
}

/// The tokens of a value, as strings.
fn value_strings(v: &RawValue) -> (r: Vec<String>)
    ensures
        texts(r@) == value_tokens(*v),
{
    let one = |t: String| -> (r: Vec<String>)
        ensures
            texts(r@) == seq![t@],
        {
            let mut out: Vec<String> = Vec::new();
            out.push(t);
            proof {
                assert(texts(out@) =~= seq![t@]);
            }
            out
        };
    match v {
        RawValue::Char(t) => one(nat_token(t.value as u64)),
        RawValue::Short(t) => one(int_token(t.value as i64)),
        RawValue::Long(t) => one(int_token(t.value as i64)),
        RawValue::Enum(t) => one(nat_token(t.value as u64)),
        RawValue::Float(t) => one(t.value.fixed.clone()),
        RawValue::Double(t) => one(t.value.fixed.clone()),
        RawValue::String(t) => one(lossy_text(&t.value)),
        RawValue::ShortArray(t) => short_strings(&t.value),
        RawValue::LongArray(t) => long_strings(&t.value),
        RawValue::FloatArray(t) => float_strings(&t.value),
        RawValue::DoubleArray(t) => float_strings(&t.value),
        RawValue::StringArray(t) => byte_strings(&t.value),
    }
}

/// Joins the tokens of `value_tokens(*v)` padded to `padding`; a value with
/// more tokens than `padding` keeps them all, unpadded.
fn tokens_text(v: &RawValue, padding: usize) -> (r: String)
    ensures
        r@ == join(padded(value_tokens(*v), padding as nat)),
{
    let ghost toks = value_tokens(*v);
    let mut strs = value_strings(v);
    let count = strs.len();
    proof {
        reveal_strlit("0");
    }
    while strs.len() < padding
        invariant
            count == toks.len(),
            count <= strs.len(),
            strs.len() <= padding || strs.len() == count,
            texts(strs@) =~= toks + Seq::new((strs.len() - count) as nat, |k: int| seq!['0']),
        decreases padding - strs.len(),
    {
        let ghost before = strs@;
        proof {
            reveal_strlit("0");
        }
        let z = String::from_str("0");
        proof {
            assert(z@ =~= seq!['0']);
        }
        strs.push(z);
        proof {
            assert(texts(strs@) =~= texts(before).push(seq!['0']));
        }
    }
    let ghost all = texts(strs@);
    proof {
        assert(all =~= padded(toks, padding as nat));
    }
    let mut out = String::new();
    let mut i: usize = 0;
    while i < strs.len()
        invariant
            all == texts(strs@),
            i <= strs.len(),
            out@ == join(all.take(i as int)),
        decreases strs.len() - i,
    {
        proof {
            assert(all.take(i as int).push(strs@[i as int]@) =~= all.take(i + 1));
        }
        push_token(&mut out, Ghost(all.take(i as int)), i == 0, strs[i].as_str());
        i = i + 1;
    }
    proof {
        assert(all.take(i as int) =~= all);
    }
    out
}

impl RawValue {
    /// The server timestamp of the reading.
    pub fn get_stamp(&self) -> (r: Stamp)
        ensures
            r == stamp_of(*self),
    {
        match self {
            RawValue::Char(t) => t.stamp,
            RawValue::Short(t) => t.stamp,
            RawValue::Long(t) => t.stamp,
            RawValue::Enum(t) => t.stamp,
            RawValue::Float(t) => t.stamp,
            RawValue::Double(t) => t.stamp,
            RawValue::String(t) => t.stamp,
            RawValue::ShortArray(t) => t.stamp,
            RawValue::LongArray(t) => t.stamp,
            RawValue::FloatArray(t) => t.stamp,
            RawValue::DoubleArray(t) => t.stamp,
            RawValue::StringArray(t) => t.stamp,
        }
    }

    /// The value as text: integers in decimal, floats with five decimals, strings
    /// decoded lossily; the elements of an array joined by spaces.
    pub fn format_scalar(&self) -> (r: String)
        ensures
            r@ == join(value_tokens(*self)),
    {
        let r = tokens_text(self, 0);
        proof {
            assert(padded(value_tokens(*self), 0) == value_tokens(*self));
        }
        r
    }

    /// The value's tokens followed by `"0"` tokens up to `padding`, joined by spaces.
    /// A value with more tokens than `padding` prints all of them, unpadded.
    pub fn format_array(&self, padding: usize) -> (r: String)
        ensures
            r@ == join(padded(value_tokens(*self), padding as nat)),
    {
        tokens_text(self, padding)
    }
}

/// A local calendar time, as chrono's `Datelike` and `Timelike` report it.
#[derive(Debug, Clone, Copy, PartialEq, Eq, Structural)]
pub struct CivilTime {
    pub year: i32,
    pub month: u32,
    pub day: u32,
    pub hour: u32,
    pub minute: u32,
    pub second: u32,
    /// Nanoseconds since the whole second; 1_000_000_000 and above mark a leap second.
    pub nanosecond: u32,
}

impl CivilTime {
    /// The ranges that chrono documents for each field.
    pub open spec fn wf(self) -> bool {
        &&& 1 <= self.month <= 12
        &&& 1 <= self.day <= 31
        &&& self.hour <= 23
        &&& self.minute <= 59
        &&& self.second <= 59
        &&& self.nanosecond < 2 * NANOS_PER_SEC
    }
}

/// The proleptic Gregorian date of a day number counted from 1970-01-01,
/// as (year, month, day).
pub open spec fn civil_from_days(days: int) -> (int, int, int) {
    let z = days + 719468;
    let era = z / 146097;
    let doe = z - era * 146097;
    let yoe = (doe - doe / 1460 + doe / 36524 - doe / 146096) / 365;
    let doy = doe - (365 * yoe + yoe / 4 - yoe / 100);
    let mp = (5 * doy + 2) / 153;
    let d = doy - (153 * mp + 2) / 5 + 1;
    let m = if mp < 10 { mp + 3 } else { mp - 9 };
    let y = yoe + era * 400 + if m <= 2 { 1int } else { 0int };
    (y, m, d)
}

/// The UTC calendar time of a Unix time given in seconds and nanoseconds.
pub open spec fn utc_civil(secs: int, nanos: nat) -> CivilTime {
    let (y, m, d) = civil_from_days(secs / 86400);
    let sod = secs % 86400;
    CivilTime {
        year: y as i32,
        month: m as u32,
        day: d as u32,
        hour: (sod / 3600) as u32,
        minute: (sod % 3600 / 60) as u32,
        second: (sod % 60) as u32,
        nanosecond: nanos as u32,
    }
}

/// `c` is the calendar time of the Unix time `secs`/`nanos` in some time zone
/// whose offset from UTC is less than a day.
pub open spec fn is_local_time(c: CivilTime, secs: int, nanos: nat) -> bool {
    &&& c.wf()
    &&& exists|off: int| -86400 < off < 86400 && c == #[trigger] utc_civil(secs + off, nanos)
}

/// Relies on chrono's `DateTime::from_timestamp` and `DateTime::with_timezone(&Local)`:
/// the local calendar time of a Unix time, with fields in their documented ranges.
/// `from_timestamp` returns `Some` for every time the `requires` admits; the
/// local offset is a `FixedOffset`, under a day either way, and adding it keeps
/// the nanoseconds.
#[verifier::external_body]
fn local_civil(unix_secs: i64, nanos: u32) -> (r: CivilTime)
    requires
        0 <= unix_secs <= 8589934592,
        nanos < NANOS_PER_SEC,
    ensures
        is_local_time(r, unix_secs as int, nanos as nat),
{
    let t = chrono::DateTime::from_timestamp(unix_secs, nanos).unwrap().with_timezone(&chrono::Local);
    CivilTime {
        year: t.year(),
        month: t.month(),
        day: t.day(),
        hour: t.hour(),
        minute: t.minute(),
        second: t.second(),
        nanosecond: t.nanosecond(),
    }
}

/// The year with four digits at least; a sign in front outside 0..=9999.
pub open spec fn year_text(y: int) -> Seq<char> {
    if 0 <= y <= 9999 {
        zero_padded(y as nat, 4)
    } else if y < 0 {
        seq!['-'] + zero_padded((-y) as nat, 4)
    } else {
        seq!['+'] + zero_padded(y as nat, 4)
    }
}

/// `YYYY-MM-DD HH:MM:SS.ffffff`: a leap second shows as second 60.
pub open spec fn civil_text(c: CivilTime) -> Seq<char> {
    year_text(c.year as int) + seq!['-'] + zero_padded(c.month as nat, 2) + seq!['-']
        + zero_padded(c.day as nat, 2) + seq![' '] + zero_padded(c.hour as nat, 2) + seq![':']
        + zero_padded(c.minute as nat, 2) + seq![':']
        + zero_padded((c.second + c.nanosecond / NANOS_PER_SEC) as nat, 2) + seq!['.']
        + zero_padded(((c.nanosecond / 1000) % 1000000) as nat, 6)
}

/// Appends a one-character separator.
fn push_sep(out: &mut String, sep: &str)
    requires
        sep@.len() == 1,
    ensures
        final(out)@ == old(out)@ + seq![sep@[0]],
{
    out.append(sep);
    proof {
        assert(sep@ =~= seq![sep@[0]]);
    }
}

/// Renders a calendar time as `YYYY-MM-DD HH:MM:SS.ffffff`.
pub fn render_civil(c: &CivilTime) -> (r: String)
    ensures
        r@ == civil_text(*c),
{
    proof {
        reveal_strlit("-");
        reveal_strlit("+");
        reveal_strlit(" ");
        reveal_strlit(":");
        reveal_strlit(".");
    }
    let mut out = String::new();
    let y = c.year as i64;
    if 0 <= y && y <= 9999 {
        push_zero_padded(&mut out, y as u64, 4);
    } else if y < 0 {
        push_sep(&mut out, "-");
        push_zero_padded(&mut out, (-y) as u64, 4);
    } else {
        push_sep(&mut out, "+");
        push_zero_padded(&mut out, y as u64, 4);
    }
    let ghost y_part = out@;
    push_sep(&mut out, "-");
    push_zero_padded(&mut out, c.month as u64, 2);
    push_sep(&mut out, "-");
    push_zero_padded(&mut out, c.day as u64, 2);
    push_sep(&mut out, " ");
    push_zero_padded(&mut out, c.hour as u64, 2);
    push_sep(&mut out, ":");
    push_zero_padded(&mut out, c.minute as u64, 2);
    push_sep(&mut out, ":");
    push_zero_padded(&mut out, c.second as u64 + (c.nanosecond / NANOS_PER_SEC) as u64, 2);
    push_sep(&mut out, ".");
    push_zero_padded(&mut out, ((c.nanosecond / 1000) % 1000000) as u64, 6);
    proof {
        assert(y_part =~= year_text(c.year as int));
        assert(out@ =~= civil_text(*c));
    }
    out
}

/// The local calendar time of a server timestamp, rendered as
/// `YYYY-MM-DD HH:MM:SS.ffffff`. Which calendar time that is depends on the
/// machine's time zone; the text is that of some well-formed calendar time.
pub fn stamp_text(s: Stamp) -> (r: String)
    ensures
        exists|c: CivilTime| is_local_time(c, unix_seconds(s), unix_nanos(s)) && r@ == civil_text(c),
{
    let c = civil_of(s);
    render_civil(&c)
}

/// The local calendar time of a server timestamp.
fn civil_of(s: Stamp) -> (r: CivilTime)
    ensures
        is_local_time(r, unix_seconds(s), unix_nanos(s)),
{
    let secs: u64 = s.sec as u64 + EPICS_EPOCH_OFFSET + (s.nsec / NANOS_PER_SEC) as u64;
    let nanos: u32 = s.nsec % NANOS_PER_SEC;
    local_civil(secs as i64, nanos)
}

/// A result record: the name of a channel, its element count and its reading.
#[derive(Debug, Clone)]
pub struct Info {
    pub name: String,
    pub elements: usize,
    pub value: RawValue,
}

/// The name column: padded to 30 characters for a scalar, bare for an array.
pub open spec fn name_text(info: Info) -> Seq<char> {
    if info.elements == 1 {
        space_padded(info.name@, 30)
    } else {
        info.name@
    }
}

/// The value column: the scalar text, or the array padded to the element count.
pub open spec fn value_text(info: Info) -> Seq<char> {
    if info.elements == 1 {
        join(value_tokens(info.value))
    } else {
        join(padded(value_tokens(info.value), info.elements as nat))
    }
}

/// The columns of one printed line, given the calendar time of the record's stamp.
pub open spec fn line_tokens(info: Info, cfg: DisplayConfig, c: CivilTime) -> Seq<Seq<char>> {
    let a: Seq<Seq<char>> = if !cfg.terse { seq![name_text(info)] } else { Seq::empty() };
    let b: Seq<Seq<char>> = if cfg.wide { seq![civil_text(c)] } else { Seq::empty() };
    let d: Seq<Seq<char>> = if info.elements != 1 { seq![nat_text(info.elements as nat)] } else { Seq::empty() };
    a + b + d + seq![value_text(info)]
}

pub open spec fn line_text(info: Info, cfg: DisplayConfig, c: CivilTime) -> Seq<char> {
    join(line_tokens(info, cfg, c))
}

impl Info {
    pub fn new(name: String, elements: usize, value: RawValue) -> (r: Info)
        ensures
            r == (Info { name, elements, value }),
    {
        Info { name, elements, value }
    }

    pub fn is_scalar(&self) -> (r: bool)
        ensures
            r == (self.elements == 1),
    {
        self.elements == 1
    }

    pub fn format_scalar(&self) -> (r: String)
        ensures
            r@ == join(value_tokens(self.value)),
    {
        self.value.format_scalar()
    }

    pub fn format_array(&self, count: usize) -> (r: String)
        ensures
            r@ == join(padded(value_tokens(self.value), count as nat)),
    {
        self.value.format_array(count)
    }

    /// The record's timestamp as local calendar time.
    pub fn format_stamp(&self) -> (r: String)
        ensures
            exists|c: CivilTime|
                is_local_time(c, unix_seconds(stamp_of(self.value)), unix_nanos(stamp_of(self.value)))
                    && r@ == civil_text(c),
    {
        stamp_text(self.value.get_stamp())
    }

    /// The name column of the line.
    fn name_column(&self) -> (r: String)
        ensures
            r@ == name_text(*self),
    {
        let mut out = String::new();
        out.append(self.name.as_str());
        if self.elements == 1 {
            let k = self.name.as_str().unicode_len();
            if k < 30 {
                proof {
                    reveal_strlit(" ");
                }
                crate::text::push_repeat(&mut out, " ", 30 - k);
            }
        }
        proof {
            assert(out@ =~= name_text(*self));
        }
        out
    }

    /// One line for this record, with `civil` as the calendar time of its stamp.
    /// The same arguments always give the same line.
    pub fn render_line(&self, cfg: &DisplayConfig, civil: &CivilTime) -> (r: String)
        ensures
            r@ == line_text(*self, *cfg, *civil),
    {
        let ghost toks = line_tokens(*self, *cfg, *civil);
        let mut out = String::new();
        let ghost mut done: Seq<Seq<char>> = Seq::empty();
        if !cfg.terse {
            let col = self.name_column();
            push_token(&mut out, Ghost(done), true, col.as_str());
            proof {
                done = done.push(col@);
            }
        }
        if cfg.wide {
            let col = render_civil(civil);
            push_token(&mut out, Ghost(done), cfg.terse, col.as_str());
            proof {
                done = done.push(col@);
            }
        }
        if self.elements != 1 {
            let col = nat_token(self.elements as u64);
            push_token(&mut out, Ghost(done), cfg.terse && !cfg.wide, col.as_str());
            proof {
                done = done.push(col@);
            }
        }
        let col = if self.elements == 1 {
            self.format_scalar()
        } else {
            self.format_array(self.elements)
        };
        push_token(&mut out, Ghost(done), cfg.terse && !cfg.wide && self.elements == 1, col.as_str());
        proof {
            done = done.push(col@);
            assert(done =~= toks);
        }
        out
    }

    /// One line for this record, its stamp shown in the machine's local time.
    pub fn format_line(&self, cfg: &DisplayConfig) -> (r: String)
        ensures
            exists|c: CivilTime|
                is_local_time(c, unix_seconds(stamp_of(self.value)), unix_nanos(stamp_of(self.value)))
                    && r@ == line_text(*self, *cfg, c),
    {
        let c = civil_of(self.value.get_stamp());
        self.render_line(cfg, &c)
    }
}

/// An array with `k` elements and a declared count `n >= k` prints exactly `n`
/// tokens: its own `k` first, then `n - k` tokens `"0"`.
pub proof fn lemma_padding_fills_to_count(ts: Seq<Seq<char>>, n: nat)
    requires
        ts.len() <= n,
    ensures
        padded(ts, n).len() == n,
        forall|i: int| 0 <= i < ts.len() ==> #[trigger] padded(ts, n)[i] == ts[i],
        forall|i: int| ts.len() <= i < n ==> #[trigger] padded(ts, n)[i] == seq!['0'],
{
}

} // verus!
