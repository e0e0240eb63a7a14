use vstd::prelude::*;
use vstd::string::{StrSliceExecFns, StringExecFns};

use crate::clock::{
    floor_seconds, since_epoch, system_now, unix_seconds, utc_date_time, utc_fields,
    MAX_UNIX_SECONDS, MIN_UNIX_SECONDS,
};
use crate::text::{chars_of, decimal_string, opt_view, spec_decimal, string_from_chars};

verus! {

/// `s` with zeros in front up to `width` characters, as `{:0width$}` pads.
pub open spec fn zero_pad(s: Seq<char>, width: nat) -> Seq<char> {
    if s.len() < width {
        Seq::new((width - s.len()) as nat, |i: int| '0') + s
    } else {
        s
    }
}

/// `format!("{:02}", n)` and its kin for a number that is not negative.
pub open spec fn padded(n: nat, width: nat) -> Seq<char> {
    zero_pad(spec_decimal(n), width)
}

/// `format!("{:04}", y)` for a signed `y`: the minus sign counts toward the
/// width and the zeros come after it.
pub open spec fn padded_signed(y: int, width: nat) -> Seq<char> {
    if y >= 0 {
        padded(y as nat, width)
    } else {
        seq!['-'] + padded((-y) as nat, if width >= 1 { (width - 1) as nat } else { 0 })
    }
}

/// The stamp `YYYYMMDD_hhmmssZ` of a UTC date and time.
pub open spec fn stamp_text(year: int, month: nat, day: nat, hour: nat, minute: nat, second: nat) -> Seq<char> {
    padded_signed(year, 4) + padded(month, 2) + padded(day, 2) + seq!['_'] + padded(hour, 2)
        + padded(minute, 2) + padded(second, 2) + seq!['Z']
}

/// Whether `s` is the stamp of some date and time that the clock can give.
pub open spec fn is_stamp(s: Seq<char>) -> bool {
    exists|y: int, mo: nat, d: nat, h: nat, mi: nat, se: nat|
        -9999 <= y <= 9999 && 1 <= mo <= 12 && 1 <= d <= 31 && h < 24 && mi < 60 && se < 60
            && s == #[trigger] stamp_text(y, mo, d, h, mi, se)
}

fn push_zeros(s: &mut String, count: usize)
    ensures
        final(s)@ == old(s)@ + Seq::new(count as nat, |i: int| '0'),
{
    let mut k: usize = 0;
    while k < count
        invariant
            k <= count,
            s@ == old(s)@ + Seq::new(k as nat, |i: int| '0'),
        decreases count - k,
    {
        s.append("0");
        proof {
            reveal_strlit("0");
        }
        assert(s@ =~= old(s)@ + Seq::new((k + 1) as nat, |i: int| '0'));
        k = k + 1;
    }
}

/// `n` in decimal, zero-padded to `width` characters.
pub fn pad_number(n: usize, width: usize) -> (s: String)
    ensures
        s@ == padded(n as nat, width as nat),
{
    let digits = decimal_string(n);
    let len = digits.as_str().unicode_len();
    let mut s = String::new();
    if len < width {
        push_zeros(&mut s, width - len);
    }
    s.append(digits.as_str());
    assert(s@ =~= padded(n as nat, width as nat));
    s
}

/// `y` formatted as `{:04}` formats an `i32`.
pub fn pad_signed(y: i32, width: usize) -> (s: String)
    requires
        width >= 1,
    ensures
        s@ == padded_signed(y as int, width as nat),
{
    if y >= 0 {
        pad_number(y as usize, width)
    } else {
        let magnitude: i64 = -(y as i64);
        let mut s = String::from_str("-");
        proof {
            reveal_strlit("-");
        }
        let rest = pad_number(magnitude as usize, width - 1);
        s.append(rest.as_str());
        assert(s@ =~= padded_signed(y as int, width as nat));
        s
    }
}

/// The stamp `YYYYMMDD_hhmmssZ` of the given UTC date and time.
pub fn format_stamp(year: i32, month: u8, day: u8, hour: u8, minute: u8, second: u8) -> (s: String)
    ensures
        s@ == stamp_text(year as int, month as nat, day as nat, hour as nat, minute as nat, second as nat),
{
    let mut s = pad_signed(year, 4);
    s.append(pad_number(month as usize, 2).as_str());
    s.append(pad_number(day as usize, 2).as_str());
    s.append("_");
    s.append(pad_number(hour as usize, 2).as_str());
    s.append(pad_number(minute as usize, 2).as_str());
    s.append(pad_number(second as usize, 2).as_str());
    s.append("Z");
    proof {
        reveal_strlit("_");
        reveal_strlit("Z");
    }
    assert(s@ =~= stamp_text(year as int, month as nat, day as nat, hour as nat, minute as nat, second as nat));
    s
}

/// The stamp of the UTC time `secs` seconds after the epoch, from the
/// fields the time crate gives for it; `None` outside the dates it
/// represents.
pub open spec fn stamp_for(secs: int) -> Option<Seq<char>> {
    if MIN_UNIX_SECONDS <= secs <= MAX_UNIX_SECONDS {
        let f = utc_date_time(secs);
        Some(stamp_text(f.0, f.1, f.2, f.3, f.4, f.5))
    } else {
        None
    }
}

/// The stamp of a reading of the clock (see [`floor_seconds`]).
pub open spec fn reading_stamp(reading: Result<(u64, u32), (u64, u32)>) -> Option<Seq<char>> {
    stamp_for(floor_seconds(reading))
}

/// Whether `s` is the stamp of some second that the time crate represents.
pub open spec fn clock_stamp(s: Seq<char>) -> bool {
    is_stamp(s) && exists|secs: int| #[trigger] stamp_for(secs) == Some(s)
}

/// The stamp `YYYYMMDD_hhmmssZ` of the UTC time `secs` seconds after the
/// epoch, or `None` outside the years -9999 to 9999.
pub fn stamp_at(secs: i64) -> (r: Option<String>)
    ensures
        opt_view(r) == stamp_for(secs as int),
        r matches Some(t) ==> clock_stamp(t@),
{
    let f = match utc_fields(secs) {
        Some(f) => f,
        None => return None,
    };
    let s = format_stamp(f.0, f.1, f.2, f.3, f.4, f.5);
    assert(s@ == stamp_text(f.0 as int, f.1 as nat, f.2 as nat, f.3 as nat, f.4 as nat, f.5 as nat));
    assert(stamp_for(secs as int) == Some(s@));
    Some(s)
}

/// The current UTC date and time as a stamp `YYYYMMDD_hhmmssZ`: the stamp of
/// the system clock's reading, or `None` when the clock lies outside the
/// years -9999 to 9999.
pub fn utc_stamp() -> (s: Option<String>)
    ensures
        exists|reading: Result<(u64, u32), (u64, u32)>| #[trigger] reading_stamp(reading) == opt_view(s),
        s matches Some(t) ==> clock_stamp(t@),
{
    let now = system_now();
    let reading = since_epoch(&now);
    let secs = match unix_seconds(reading) {
        Some(v) => v,
        None => {
            assert(reading_stamp(reading) == None::<Seq<char>>);
            return None;
        },
    };
    let s = stamp_at(secs);
    assert(reading_stamp(reading) == opt_view(s));
    s
}


/// Whether `c` may stay in a path part: an ASCII letter or digit, `-` or `_`.
pub open spec fn keeps_in_path(c: char) -> bool {
    ('a' <= c <= 'z') || ('A' <= c <= 'Z') || ('0' <= c <= '9') || c == '-' || c == '_'
}

/// `s` with every character that may not stay in a path part replaced by `_`.
pub open spec fn sanitized(s: Seq<char>) -> Seq<char> {
    Seq::new(s.len(), |i: int| if keeps_in_path(s[i]) { s[i] } else { '_' })
}

/// A sanitized name holds only characters that may stay in a path part, is
/// as long as the name, and sanitizing it again changes nothing.
pub proof fn sanitized_law(s: Seq<char>)
    ensures
        sanitized(s).len() == s.len(),
        forall|k: int| 0 <= k < s.len() ==> keeps_in_path(#[trigger] sanitized(s)[k]),
        sanitized(sanitized(s)) == sanitized(s),
{
    assert(sanitized(sanitized(s)) =~= sanitized(s));
}

/// A name made safe to stand as one part of a path.
pub fn sanitize_path_part(value: &str) -> (r: String)
    ensures
        r@ == sanitized(value@),
{
    let cs = chars_of(value);
    let mut out: Vec<char> = Vec::new();
    let mut k: usize = 0;
    while k < cs.len()
        invariant
            k <= cs.len(),
            cs@ == value@,
            out@ == sanitized(value@).take(k as int),
        decreases cs.len() - k,
    {
        let c = cs[k];
        let keep = ('a' <= c && c <= 'z') || ('A' <= c && c <= 'Z') || ('0' <= c && c <= '9')
            || c == '-' || c == '_';
        out.push(if keep { c } else { '_' });
        assert(out@ =~= sanitized(value@).take(k as int + 1));
        k = k + 1;
    }
    assert(out@ =~= sanitized(value@));
    string_from_chars(out.as_slice())
}

/// `base` joined with `name` as `Path::join` joins on Unix: an absolute
/// `name` replaces `base`, and a `/` goes between them unless `base` is
/// empty or already ends in one.
pub open spec fn join_path(base: Seq<char>, name: Seq<char>) -> Seq<char> {
    if name.len() > 0 && name[0] == '/' {
        name
    } else if base.len() == 0 || base.last() == '/' {
        base + name
    } else {
        base + seq!['/'] + name
    }
}

/// `Path::join` on Unix paths held as text.
pub fn join(base: &str, name: &str) -> (r: String)
    ensures
        r@ == join_path(base@, name@),
{
    let name_len = name.unicode_len();
    if name_len > 0 && name.get_char(0) == '/' {
        return String::from_str(name);
    }
    let base_len = base.unicode_len();
    let mut r = String::from_str(base);
    if base_len > 0 && base.get_char(base_len - 1) != '/' {
        r.append("/");
        proof {
            reveal_strlit("/");
        }
    }
    r.append(name);
    assert(r@ =~= join_path(base@, name@));
    r
}

/// Where runs go when no directory is named.
pub open spec fn runs_dir() -> Seq<char> {
    "target/runs"@
}

/// The name of a run's directory: `{stamp}_{dataset}_{steps}steps`, the
/// dataset sanitized.
pub open spec fn run_dir_name(stamp: Seq<char>, dataset: Seq<char>, steps: nat) -> Seq<char> {
    stamp + seq!['_'] + sanitized(dataset) + seq!['_'] + spec_decimal(steps) + "steps"@
}

/// `{stamp}_{dataset}_{steps}steps` for the given stamp.
pub fn run_dir_name_for(stamp: &str, dataset: &str, steps: usize) -> (r: String)
    ensures
        r@ == run_dir_name(stamp@, dataset@, steps as nat),
{
    let mut r = String::from_str(stamp);
    r.append("_");
    r.append(sanitize_path_part(dataset).as_str());
    r.append("_");
    r.append(decimal_string(steps).as_str());
    r.append("steps");
    proof {
        reveal_strlit("_");
    }
    assert(r@ =~= run_dir_name(stamp@, dataset@, steps as nat));
    r
}

/// A fresh run directory under `target/runs`, named after the current time,
/// the dataset and the step count; `None` when the clock cannot give a
/// stamp.
pub fn default_run_dir(dataset: &str, steps: usize) -> (r: Option<String>)
    ensures
        r matches Some(d) ==> exists|stamp: Seq<char>|
            clock_stamp(stamp) && d@ == join_path(runs_dir(), #[trigger] run_dir_name(stamp, dataset@, steps as nat)),
{
    let stamp = match utc_stamp() {
        Some(t) => t,
        None => return None,
    };
    let name = run_dir_name_for(stamp.as_str(), dataset, steps);
    let d = join("target/runs", name.as_str());
    assert(d@ == join_path(runs_dir(), run_dir_name(stamp@, dataset@, steps as nat)));
    Some(d)
}

/// Where sweeps go when no directory is named.
pub open spec fn sweeps_dir() -> Seq<char> {
    "target/sweeps"@
}

/// A fresh sweep directory under `target/sweeps`, named after the current
/// time; `None` when the clock cannot give a stamp.
pub fn default_sweep_dir() -> (r: Option<String>)
    ensures
        r matches Some(d) ==> exists|stamp: Seq<char>| clock_stamp(stamp) && d@ == #[trigger] join_path(sweeps_dir(), stamp),
{
    let stamp = match utc_stamp() {
        Some(t) => t,
        None => return None,
    };
    let r = join("target/sweeps", stamp.as_str());
    assert(r@ == join_path(sweeps_dir(), stamp@));
    Some(r)
}

/// The directory that a run writes its files to.
pub struct RunOutput {
    dir: String,
}

impl View for RunOutput {
    type V = Seq<char>;

    closed spec fn view(&self) -> Seq<char> {
        self.dir@
    }
}

impl RunOutput {
    /// The run output that lives in `dir`.
    pub fn in_dir(dir: String) -> (r: RunOutput)
        ensures
            r@ == dir@,
    {
        RunOutput { dir }
    }

    /// The directory a run uses: `TRAIN_RUN_DIR` when it is set and not
    /// empty, else a fresh directory under `target/runs`; `None` only when a
    /// fresh directory is needed and the clock cannot give a stamp.
    pub fn for_run(run_dir: Option<String>, dataset: &str, steps: usize) -> (r: Option<RunOutput>)
        ensures
            match run_dir {
                Some(d) if d@.len() > 0 => r matches Some(o) && o@ == d@,
                _ => r matches Some(o) ==> exists|stamp: Seq<char>|
                    clock_stamp(stamp) && o@ == join_path(runs_dir(), #[trigger] run_dir_name(stamp, dataset@, steps as nat)),
            },
    {
        match run_dir {
            Some(d) => {
                if d.as_str().unicode_len() > 0 {
                    return Some(RunOutput { dir: d });
                }
            },
            None => {},
        }
        match default_run_dir(dataset, steps) {
            Some(dir) => Some(RunOutput { dir }),
            None => None,
        }
    }

    /// The directory.
    pub fn dir(&self) -> (r: &str)
        ensures
            r@ == self@,
    {
        self.dir.as_str()
    }

    /// The path of `file_name` inside the directory.
    pub fn path(&self, file_name: &str) -> (r: String)
        ensures
            r@ == join_path(self@, file_name@),
    {
        join(self.dir.as_str(), file_name)
    }
}

} // verus!
