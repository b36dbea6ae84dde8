//! The sidecar that records where a trashed item came from and when it left.
use vstd::prelude::*;
use crate::text::{chars_of, push_all, text_of};

verus! {

/// What `urlencoding::encode` makes of a string.
pub uninterp spec fn percent_encoded(s: Seq<char>) -> Seq<char>;

/// What `urlencoding::decode` makes of a string, when it decodes to UTF-8.
pub uninterp spec fn percent_decoded(s: Seq<char>) -> Option<Seq<char>>;

/// The RFC 3339 text (second precision, `Z` offset) that chrono writes for a
/// Unix time, when the time is within chrono's range.
pub uninterp spec fn rfc3339_text(secs: i64) -> Option<Seq<char>>;

/// The Unix time that chrono reads from an RFC 3339 text, when it reads one.
pub uninterp spec fn rfc3339_seconds(s: Seq<char>) -> Option<i64>;

/// First second of the year 0 (UTC).
pub const YEAR_0_START: i64 = -62167219200;

/// Last second of the year 9999 (UTC).
pub const YEAR_9999_END: i64 = 253402300799;

/// A time whose year is written with four digits, from 0000 to 9999.
pub open spec fn four_digit_year(secs: i64) -> bool {
    YEAR_0_START <= secs && secs <= YEAR_9999_END
}

/// A character that percent-encoding leaves as it is, or its escape mark.
pub open spec fn url_safe(c: char) -> bool {
    ('0' <= c && c <= '9') || ('a' <= c && c <= 'z') || ('A' <= c && c <= 'Z')
        || c == '-' || c == '.' || c == '_' || c == '~' || c == '%'
}

/// Relies on `urlencoding::encode`: every byte but ASCII letters, digits and
/// `-` `.` `_` `~` becomes `%` and two hex digits, so that
/// `urlencoding::decode` gives the text back.
#[verifier::external_body]
fn encode_path(s: &str) -> (r: String)
    ensures
        r@ == percent_encoded(s@),
        percent_decoded(r@) == Some(s@),
        forall|i: int| 0 <= i < r@.len() ==> url_safe(#[trigger] r@[i]),
{
    urlencoding::encode(s).into_owned()
}

/// Relies on `urlencoding::decode`: the decoded text, or an error when the
/// decoded bytes are no UTF-8.
#[verifier::external_body]
fn decode_path(s: &str) -> (r: Option<String>)
    ensures
        match r {
            Some(v) => percent_decoded(s@) == Some(v@),
            None => percent_decoded(s@) is None,
        },
{
    match urlencoding::decode(s) {
        Ok(v) => Some(v.into_owned()),
        Err(_) => None,
    }
}

/// Relies on chrono's `DateTime::<Utc>::from_timestamp` and
/// `to_rfc3339_opts(SecondsFormat::Secs, true)`: the time as
/// `YYYY-MM-DDTHH:MM:SSZ`, when chrono can hold it; for the years 0 to 9999
/// `DateTime::parse_from_rfc3339` reads that text back as the same second.
#[verifier::external_body]
fn format_utc(secs: i64) -> (r: Option<String>)
    ensures
        four_digit_year(secs) ==> r is Some,
        match r {
            Some(v) => rfc3339_text(secs) == Some(v@)
                && (forall|i: int| 0 <= i < v@.len() ==> #[trigger] v@[i] != '\n' && v@[i] != '\r')
                && (four_digit_year(secs) ==> rfc3339_seconds(v@) == Some(secs)),
            None => rfc3339_text(secs) is None,
        },
{
    match chrono::DateTime::<chrono::Utc>::from_timestamp(secs, 0) {
        Some(dt) => Some(dt.to_rfc3339_opts(chrono::SecondsFormat::Secs, true)),
        None => None,
    }
}

/// Relies on chrono's `DateTime::parse_from_rfc3339` and `timestamp`: the
/// Unix time of an RFC 3339 text, or nothing when chrono refuses the text.
#[verifier::external_body]
fn parse_rfc3339(s: &str) -> (r: Option<i64>)
    ensures
        r == rfc3339_seconds(s@),
{
    match chrono::DateTime::parse_from_rfc3339(s) {
        Ok(dt) => Some(dt.timestamp()),
        Err(_) => None,
    }
}

pub open spec fn header_line() -> Seq<char> {
    seq!['[', 'T', 'r', 'a', 's', 'h', ' ', 'I', 'n', 'f', 'o', ']']
}

pub open spec fn path_key() -> Seq<char> {
    seq!['P', 'a', 't', 'h', '=']
}

pub open spec fn date_key() -> Seq<char> {
    seq!['D', 'e', 'l', 'e', 't', 'i', 'o', 'n', 'D', 'a', 't', 'e', '=']
}

/// The sidecar text for an encoded path and a date text.
pub open spec fn sidecar_text(encoded_path: Seq<char>, date: Seq<char>) -> Seq<char> {
    header_line() + seq!['\n'] + path_key() + encoded_path + seq!['\n'] + date_key() + date
        + seq!['\n']
}

/// The characters after the last line feed of `s`.
pub open spec fn open_line(s: Seq<char>) -> Seq<char>
    decreases s.len(),
{
    if s.len() == 0 || s.last() == '\n' {
        Seq::empty()
    } else {
        open_line(s.drop_last()).push(s.last())
    }
}

/// A line without the carriage return of a `\r\n` ending.
pub open spec fn strip_cr(l: Seq<char>) -> Seq<char> {
    if l.len() > 0 && l.last() == '\r' {
        l.drop_last()
    } else {
        l
    }
}

/// The lines of `s` that a line feed ends.
pub open spec fn closed_lines(s: Seq<char>) -> Seq<Seq<char>>
    decreases s.len(),
{
    if s.len() == 0 {
        Seq::empty()
    } else if s.last() == '\n' {
        closed_lines(s.drop_last()).push(strip_cr(open_line(s.drop_last())))
    } else {
        closed_lines(s.drop_last())
    }
}

/// The lines of a text, as `str::lines` gives them.
pub open spec fn lines_of(s: Seq<char>) -> Seq<Seq<char>> {
    if open_line(s).len() > 0 {
        closed_lines(s).push(open_line(s))
    } else {
        closed_lines(s)
    }
}

/// What follows `key` on the last line that starts with it.
pub open spec fn field(lines: Seq<Seq<char>>, key: Seq<char>) -> Option<Seq<char>>
    decreases lines.len(),
{
    if lines.len() == 0 {
        None
    } else if key.is_prefix_of(lines.last()) {
        Some(lines.last().skip(key.len() as int))
    } else {
        field(lines.drop_last(), key)
    }
}

/// The two fields of a sidecar text: the encoded path and the date text.
pub open spec fn sidecar_fields(s: Seq<char>) -> (Option<Seq<char>>, Option<Seq<char>>) {
    (field(lines_of(s), path_key()), field(lines_of(s), date_key()))
}

/// The deletion time: the date read as it stands, else with `Z` appended,
/// else the time of the scan.
pub open spec fn resolved_time(first: Option<i64>, retried: Option<i64>, now: i64) -> i64 {
    match first {
        Some(t) => t,
        None => match retried {
            Some(t) => t,
            None => now,
        },
    }
}

/// What a sidecar records.
#[derive(Clone, Debug)]
pub struct SidecarRecord {
    /// The absolute path that the item had.
    pub original_path: String,
    /// When it was trashed, in seconds since the Unix epoch.
    pub deletion_time: i64,
}

/// The record that a sidecar text holds, read at `now`: none when a field is
/// missing or the path does not decode.
pub open spec fn record_of(s: Seq<char>, now: i64) -> Option<(Seq<char>, i64)> {
    match sidecar_fields(s) {
        (Some(p), Some(d)) => match percent_decoded(p) {
            Some(path) => Some(
                (path, resolved_time(rfc3339_seconds(d), rfc3339_seconds(d.push('Z')), now)),
            ),
            None => None,
        },
        _ => None,
    }
}

pub open spec fn opt_view(o: Option<Vec<char>>) -> Option<Seq<char>> {
    match o {
        Some(v) => Some(v@),
        None => None,
    }
}

proof fn lemma_field_push(lines: Seq<Seq<char>>, l: Seq<char>, key: Seq<char>)
    ensures
        field(lines.push(l), key) == if key.is_prefix_of(l) {
            Some(l.skip(key.len() as int))
        } else {
            field(lines, key)
        },
{
    assert(lines.push(l).drop_last() =~= lines);
}

/// What follows `key` on `line`, when the line starts with it.
fn field_of_line(line: &Vec<char>, key: &Vec<char>) -> (r: Option<Vec<char>>)
    ensures
        opt_view(r) == if key@.is_prefix_of(line@) {
            Some(line@.skip(key@.len() as int))
        } else {
            None::<Seq<char>>
        },
{
    if key.len() > line.len() {
        return None;
    }
    let mut i: usize = 0;
    while i < key.len()
        invariant
            key@.len() <= line@.len(),
            i <= key@.len(),
            forall|k: int| 0 <= k < i ==> key@[k] == line@[k],
        decreases key@.len() - i,
    {
        if key[i] != line[i] {
            return None;
        }
        i = i + 1;
    }
    assert(key@ =~= line@.take(key@.len() as int));
    let mut rest: Vec<char> = Vec::new();
    let mut j: usize = key.len();
    while j < line.len()
        invariant
            key@.len() <= j <= line@.len(),
            rest@ =~= line@.subrange(key@.len() as int, j as int),
        decreases line@.len() - j,
    {
        rest.push(line[j]);
        j = j + 1;
    }
    Some(rest)
}

/// Reads the encoded path and the date text from a sidecar text: each is
/// taken from the last line that starts with its key.
pub fn read_fields(text: &str) -> (r: (Option<String>, Option<String>))
    ensures
        (match r.0 { Some(v) => Some(v@), None => None::<Seq<char>> }, match r.1 {
            Some(v) => Some(v@),
            None => None::<Seq<char>>,
        }) == sidecar_fields(text@),
{
    let s = chars_of(text);
    let pk = vec!['P', 'a', 't', 'h', '='];
    let dk = vec!['D', 'e', 'l', 'e', 't', 'i', 'o', 'n', 'D', 'a', 't', 'e', '='];
    assert(pk@ =~= path_key());
    assert(dk@ =~= date_key());
    let mut path_val: Option<Vec<char>> = None;
    let mut date_val: Option<Vec<char>> = None;
    let mut cur: Vec<char> = Vec::new();
    let mut i: usize = 0;
    assert(s@.take(0) =~= Seq::<char>::empty());
    while i < s.len()
        invariant
            i <= s@.len(),
            pk@ == path_key(),
            dk@ == date_key(),
            cur@ == open_line(s@.take(i as int)),
            opt_view(path_val) == field(closed_lines(s@.take(i as int)), path_key()),
            opt_view(date_val) == field(closed_lines(s@.take(i as int)), date_key()),
        decreases s@.len() - i,
    {
        let c = s[i];
        let ghost pre = s@.take(i as int);
        assert(s@.take(i + 1).drop_last() =~= pre);
        if c == '\n' {
            if cur.len() > 0 && cur[cur.len() - 1] == '\r' {
                cur.pop();
            }
            let ghost line = cur@;
            proof {
                lemma_field_push(closed_lines(pre), line, path_key());
                lemma_field_push(closed_lines(pre), line, date_key());
            }
            match field_of_line(&cur, &pk) {
                Some(v) => { path_val = Some(v); },
                None => {},
            }
            match field_of_line(&cur, &dk) {
                Some(v) => { date_val = Some(v); },
                None => {},
            }
            cur = Vec::new();
        } else {
            cur.push(c);
        }
        i = i + 1;
    }
    assert(s@.take(s@.len() as int) =~= s@);
    if cur.len() > 0 {
        proof {
            lemma_field_push(closed_lines(s@), cur@, path_key());
            lemma_field_push(closed_lines(s@), cur@, date_key());
        }
        match field_of_line(&cur, &pk) {
            Some(v) => { path_val = Some(v); },
            None => {},
        }
        match field_of_line(&cur, &dk) {
            Some(v) => { date_val = Some(v); },
            None => {},
        }
    }
    let p = match path_val {
        Some(v) => Some(text_of(&v)),
        None => None,
    };
    let d = match date_val {
        Some(v) => Some(text_of(&v)),
        None => None,
    };
    (p, d)
}

/// The sidecar text for an encoded path and a date text.
pub fn render_sidecar(encoded_path: &str, date: &str) -> (r: String)
    ensures
        r@ == sidecar_text(encoded_path@, date@),
{
    let mut out = vec!['[', 'T', 'r', 'a', 's', 'h', ' ', 'I', 'n', 'f', 'o', ']', '\n'];
    let pk = vec!['P', 'a', 't', 'h', '='];
    let dk = vec!['D', 'e', 'l', 'e', 't', 'i', 'o', 'n', 'D', 'a', 't', 'e', '='];
    push_all(&mut out, &pk);
    push_all(&mut out, &chars_of(encoded_path));
    out.push('\n');
    push_all(&mut out, &dk);
    push_all(&mut out, &chars_of(date));
    out.push('\n');
    assert(out@ =~= sidecar_text(encoded_path@, date@));
    text_of(&out)
}

/// The sidecar text for an item that had the absolute path `original` and
/// was trashed at `secs`; none when chrono cannot write that time.
pub fn encode_sidecar(original: &str, secs: i64) -> (r: Option<String>)
    ensures
        match rfc3339_text(secs) {
            Some(d) => r is Some && r->0@ == sidecar_text(percent_encoded(original@), d)
                && sidecar_fields(r->0@) == (Some(percent_encoded(original@)), Some(d)),
            None => r is None,
        },
        four_digit_year(secs) ==> r is Some && forall|now: i64|
            #[trigger] record_of(r->0@, now) == Some((original@, secs)),
{
    let encoded = encode_path(original);
    match format_utc(secs) {
        Some(date) => {
            proof {
                lemma_sidecar_round_trip(encoded@, date@);
            }
            Some(render_sidecar(encoded.as_str(), date.as_str()))
        },
        None => None,
    }
}

/// The deletion time from the two readings of a date text and the time of
/// the scan.
pub fn resolve_deletion_time(first: Option<i64>, retried: Option<i64>, now: i64) -> (r: i64)
    ensures
        r == resolved_time(first, retried, now),
{
    match first {
        Some(t) => t,
        None => match retried {
            Some(t) => t,
            None => now,
        },
    }
}

/// Reads a deletion date leniently: as it stands, else with `Z` appended,
/// else it is taken as `now`.
pub fn parse_deletion_date(date: &str, now: i64) -> (r: i64)
    ensures
        r == resolved_time(rfc3339_seconds(date@), rfc3339_seconds(date@.push('Z')), now),
{
    let first = parse_rfc3339(date);
    match first {
        Some(t) => t,
        None => {
            let mut v = chars_of(date);
            v.push('Z');
            let with_z = text_of(&v);
            resolve_deletion_time(first, parse_rfc3339(with_z.as_str()), now)
        },
    }
}

/// The record of a sidecar text read at `now`.
pub fn decode_sidecar(text: &str, now: i64) -> (r: Option<SidecarRecord>)
    ensures
        match record_of(text@, now) {
            Some((path, t)) => r is Some && r->0.original_path@ == path && r->0.deletion_time == t,
            None => r is None,
        },
{
    let (p, d) = read_fields(text);
    match (p, d) {
        (Some(p), Some(d)) => match decode_path(p.as_str()) {
            Some(path) => {
                let t = parse_deletion_date(d.as_str(), now);
                Some(SidecarRecord { original_path: path, deletion_time: t })
            },
            None => None,
        },
        _ => None,
    }
}

proof fn lemma_open_line_append(s: Seq<char>, t: Seq<char>)
    requires
        forall|i: int| 0 <= i < t.len() ==> t[i] != '\n',
    ensures
        open_line(s + t) == open_line(s) + t,
        closed_lines(s + t) == closed_lines(s),
    decreases t.len(),
{
    if t.len() == 0 {
        assert(s + t =~= s);
    } else {
        lemma_open_line_append(s, t.drop_last());
        assert((s + t).drop_last() =~= s + t.drop_last());
        assert(open_line(s) + t =~= (open_line(s) + t.drop_last()).push(t.last()));
    }
}

proof fn lemma_close_line(s: Seq<char>, t: Seq<char>)
    requires
        forall|i: int| 0 <= i < t.len() ==> t[i] != '\n',
        open_line(s).len() == 0,
    ensures
        closed_lines(s + t + seq!['\n']) == closed_lines(s).push(strip_cr(t)),
        open_line(s + t + seq!['\n']).len() == 0,
{
    lemma_open_line_append(s, t);
    assert((s + t + seq!['\n']).drop_last() =~= s + t);
    assert(open_line(s) + t =~= t);
}

/// Reading back a sidecar gives the encoded path and the date text that were
/// written into it, for any path and date free of line breaks.
pub proof fn lemma_sidecar_round_trip(encoded_path: Seq<char>, date: Seq<char>)
    requires
        forall|i: int| 0 <= i < encoded_path.len() ==> #[trigger] encoded_path[i] != '\n'
            && encoded_path[i] != '\r',
        forall|i: int| 0 <= i < date.len() ==> #[trigger] date[i] != '\n' && date[i] != '\r',
    ensures
        sidecar_fields(sidecar_text(encoded_path, date)) == (Some(encoded_path), Some(date)),
{
    let l0 = header_line();
    let l1 = path_key() + encoded_path;
    let l2 = date_key() + date;
    let e = Seq::<char>::empty();
    assert(open_line(e).len() == 0);
    lemma_close_line(e, l0);
    let s1 = e + l0 + seq!['\n'];
    assert(strip_cr(l0) == l0);
    lemma_close_line(s1, l1);
    let s2 = s1 + l1 + seq!['\n'];
    assert(strip_cr(l1) =~= l1);
    lemma_close_line(s2, l2);
    let s3 = s2 + l2 + seq!['\n'];
    assert(strip_cr(l2) =~= l2);
    assert(s3 =~= sidecar_text(encoded_path, date));
    assert(closed_lines(e) =~= Seq::<Seq<char>>::empty());
    let lines = seq![l0, l1, l2];
    assert(closed_lines(s3) =~= lines);
    assert(lines_of(s3) =~= lines);
    assert(date_key().is_prefix_of(l2)) by {
        assert(l2.take(date_key().len() as int) =~= date_key());
    };
    assert(l2.skip(date_key().len() as int) =~= date);
    assert(!path_key().is_prefix_of(l2)) by {
        assert(l2[0] != path_key()[0]);
    };
    assert(lines.drop_last() =~= seq![l0, l1]);
    assert(path_key().is_prefix_of(l1)) by {
        assert(l1.take(path_key().len() as int) =~= path_key());
    };
    assert(l1.skip(path_key().len() as int) =~= encoded_path);
    assert(field(lines, date_key()) == Some(date));
    assert(field(lines, path_key()) == field(seq![l0, l1], path_key()));
    assert(seq![l0, l1].last() == l1);
    assert(field(seq![l0, l1], path_key()) == Some(encoded_path));
}

} // verus!
