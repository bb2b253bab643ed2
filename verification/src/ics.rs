//! The iCalendar export: one VEVENT per document, generated and parsed by
//! verified code, with the round trip proved for line-safe field values.

use vstd::prelude::*;

use crate::civil::{civil_date_of, CivilTime};
use crate::models::{Event, Location};
use crate::numfmt::{digit_char, digit_str, int_str, i64_to_string};
use crate::strutil::str_starts_with;

verus! {

/// Two decimal digits, zero-padded.
pub open spec fn two_digit_str(n: int) -> Seq<char> {
    seq![digit_char(n / 10), digit_char(n % 10)]
}

/// Four decimal digits, zero-padded.
pub open spec fn four_digit_str(n: int) -> Seq<char> {
    seq![
        digit_char(n / 1000),
        digit_char((n / 100) % 10),
        digit_char((n / 10) % 10),
        digit_char(n % 10),
    ]
}

/// A civil time in the `YYYYMMDDTHHMMSS` form the export carries.
pub open spec fn stamp_str(c: CivilTime) -> Seq<char> {
    four_digit_str(c.year as int) + two_digit_str(c.month as int) + two_digit_str(c.day as int)
        + seq!['T'] + two_digit_str(c.hour as int) + two_digit_str(c.minute as int)
        + two_digit_str(c.second as int)
}

fn append_two_digits(r: &mut String, n: u8)
    requires
        n <= 99,
    ensures
        final(r)@ == old(r)@ + two_digit_str(n as int),
{
    r.append(digit_str((n / 10) as u64));
    r.append(digit_str((n % 10) as u64));
    proof {
        assert(final(r)@ =~= old(r)@ + two_digit_str(n as int));
    }
}

/// Renders a civil time as `YYYYMMDDTHHMMSS`.
pub fn format_stamp(c: &CivilTime) -> (r: String)
    requires
        0 <= c.year <= 9999,
        c.month <= 99,
        c.day <= 99,
        c.hour <= 99,
        c.minute <= 99,
        c.second <= 99,
    ensures
        r@ == stamp_str(*c),
{
    let mut r = String::new();
    let y = c.year;
    r.append(digit_str((y / 1000) as u64));
    r.append(digit_str(((y / 100) % 10) as u64));
    r.append(digit_str(((y / 10) % 10) as u64));
    r.append(digit_str((y % 10) as u64));
    append_two_digits(&mut r, c.month);
    append_two_digits(&mut r, c.day);
    r.append("T");
    append_two_digits(&mut r, c.hour);
    append_two_digits(&mut r, c.minute);
    append_two_digits(&mut r, c.second);
    proof {
        reveal_strlit("T");
        assert("T"@ =~= seq!['T']);
        assert(r@ =~= stamp_str(*c));
    }
    r
}

/// The LOCATION property's text: `street street_number, postal_code city`.
pub open spec fn location_text(l: Location) -> Seq<char> {
    l.street@ + seq![' '] + int_str(l.street_number as int) + seq![',', ' '] + int_str(
        l.postal_code as int,
    ) + seq![' '] + l.city@
}

impl Location {
    /// Renders the LOCATION property's text for this location.
    pub fn to_ics_location(&self) -> (r: String)
        ensures
            r@ == location_text(*self),
    {
        let mut r = String::new();
        r.append(self.street.as_str());
        r.append(" ");
        r.append(i64_to_string(self.street_number as i64).as_str());
        r.append(", ");
        r.append(i64_to_string(self.postal_code as i64).as_str());
        r.append(" ");
        r.append(self.city.as_str());
        proof {
            reveal_strlit(" ");
            reveal_strlit(", ");
            assert(" "@ =~= seq![' ']);
            assert(", "@ =~= seq![',', ' ']);
            assert(r@ =~= location_text(*self));
        }
        r
    }
}

/// The URL back to an event's page.
pub open spec fn event_url(id: int) -> Seq<char> {
    "https://192.168.178.51:8000/event/"@ + int_str(id)
}

/// Renders the URL back to an event's page.
pub fn event_url_string(id: i64) -> (r: String)
    ensures
        r@ == event_url(id as int),
{
    let mut r = String::from_str("https://192.168.178.51:8000/event/");
    r.append(i64_to_string(id).as_str());
    r
}

/// The content lines of the exported document, in order.
pub open spec fn ics_lines_of(
    uid: Seq<char>,
    dtstamp: Seq<char>,
    dtend: Seq<char>,
    summary: Seq<char>,
    description: Seq<char>,
    location: Seq<char>,
    url: Seq<char>,
) -> Seq<Seq<char>> {
    seq![
        "BEGIN:VCALENDAR"@,
        "VERSION:2.0"@,
        "PRODID:ics-rs"@,
        "BEGIN:VEVENT"@,
        "UID:"@ + uid,
        "DTSTAMP:"@ + dtstamp,
        "CREATED:"@ + dtstamp,
        "DTSTART:"@ + dtstamp,
        "DTEND:"@ + dtend,
        "SUMMARY:"@ + summary,
        "DESCRIPTION:"@ + description,
        "LOCATION:"@ + location,
        "STATUS:NEEDS-ACTION"@,
        "CLASS:PUBLIC"@,
        "URL:"@ + url,
        "END:VEVENT"@,
        "END:VCALENDAR"@,
    ]
}

/// Lines terminated by CRLF, each one.
pub open spec fn crlf_terminated(lines: Seq<Seq<char>>) -> Seq<char>
    decreases lines.len(),
{
    if lines.len() == 0 {
        Seq::empty()
    } else {
        lines[0] + seq!['\r', '\n'] + crlf_terminated(lines.drop_first())
    }
}

/// The whole exported document for the given field values.
pub open spec fn ics_doc_of(
    uid: Seq<char>,
    dtstamp: Seq<char>,
    dtend: Seq<char>,
    summary: Seq<char>,
    description: Seq<char>,
    location: Seq<char>,
    url: Seq<char>,
) -> Seq<char> {
    crlf_terminated(ics_lines_of(uid, dtstamp, dtend, summary, description, location, url))
}

fn append_line(r: &mut String, prefix: &str, value: &str)
    ensures
        final(r)@ == old(r)@ + prefix@ + value@ + seq!['\r', '\n'],
{
    r.append(prefix);
    r.append(value);
    r.append("\r\n");
    proof {
        reveal_strlit("\r\n");
        assert("\r\n"@ =~= seq!['\r', '\n']);
        assert(final(r)@ =~= old(r)@ + prefix@ + value@ + seq!['\r', '\n']);
    }
}

pub proof fn lemma_crlf_push(lines: Seq<Seq<char>>, x: Seq<char>)
    ensures
        crlf_terminated(lines.push(x)) == crlf_terminated(lines) + x + seq!['\r', '\n'],
    decreases lines.len(),
{
    if lines.len() == 0 {
        assert(lines.push(x)[0] == x);
        assert(lines.push(x).drop_first() =~= Seq::<Seq<char>>::empty());
        assert(crlf_terminated(Seq::<Seq<char>>::empty()) == Seq::<char>::empty());
        assert(crlf_terminated(lines.push(x)) == x + seq!['\r', '\n'] + crlf_terminated(
            Seq::<Seq<char>>::empty(),
        ));
        assert(crlf_terminated(lines.push(x)) =~= crlf_terminated(lines) + x + seq!['\r', '\n']);
    } else {
        assert(lines.push(x)[0] == lines[0]);
        assert(lines.push(x).drop_first() =~= lines.drop_first().push(x));
        lemma_crlf_push(lines.drop_first(), x);
        assert(crlf_terminated(lines.push(x)) == lines[0] + seq!['\r', '\n'] + crlf_terminated(
            lines.drop_first().push(x),
        ));
        assert(crlf_terminated(lines.push(x)) =~= crlf_terminated(lines) + x + seq!['\r', '\n']);
    }
}

/// Builds the exported document from its field values.
pub fn build_ics_document(
    uid: &str,
    dtstamp: &str,
    dtend: &str,
    summary: &str,
    description: &str,
    location: &str,
    url: &str,
) -> (r: String)
    ensures
        r@ == ics_doc_of(uid@, dtstamp@, dtend@, summary@, description@, location@, url@),
{
    let parts: Vec<(&str, &str)> = vec![
        ("BEGIN:VCALENDAR", ""),
        ("VERSION:2.0", ""),
        ("PRODID:ics-rs", ""),
        ("BEGIN:VEVENT", ""),
        ("UID:", uid),
        ("DTSTAMP:", dtstamp),
        ("CREATED:", dtstamp),
        ("DTSTART:", dtstamp),
        ("DTEND:", dtend),
        ("SUMMARY:", summary),
        ("DESCRIPTION:", description),
        ("LOCATION:", location),
        ("STATUS:NEEDS-ACTION", ""),
        ("CLASS:PUBLIC", ""),
        ("URL:", url),
        ("END:VEVENT", ""),
        ("END:VCALENDAR", ""),
    ];
    let ghost lines = ics_lines_of(uid@, dtstamp@, dtend@, summary@, description@, location@, url@);
    proof {
        reveal_strlit("");
        assert(parts@.map_values(|p: (&str, &str)| p.0@ + p.1@) =~~= lines);
    }
    let mut r = String::new();
    let mut i: usize = 0;
    while i < parts.len()
        invariant
            0 <= i <= parts@.len(),
            parts@.map_values(|p: (&str, &str)| p.0@ + p.1@) =~~= lines,
            lines.len() == parts@.len(),
            r@ == crlf_terminated(lines.take(i as int)),
        decreases parts@.len() - i,
    {
        let (prefix, value) = parts[i];
        append_line(&mut r, prefix, value);
        proof {
            assert(lines.take(i + 1) =~= lines.take(i as int).push(lines[i as int]));
            lemma_crlf_push(lines.take(i as int), lines[i as int]);
            assert(lines[i as int] == prefix@ + value@);
        }
        i = i + 1;
    }
    proof {
        assert(lines.take(i as int) =~= lines);
    }
    r
}

/// Whether the text is free of carriage returns and line feeds.
pub open spec fn line_safe(s: Seq<char>) -> bool {
    forall|i: int| 0 <= i < s.len() ==> (#[trigger] s[i]) != '\r' && s[i] != '\n'
}

/// Whether the text is free of CRLF pairs.
pub open spec fn no_crlf(s: Seq<char>) -> bool {
    forall|i: int| 0 <= i < s.len() - 1 ==> !((#[trigger] s[i]) == '\r' && s[i + 1] == '\n')
}

/// The position of the first CRLF pair, or the length when there is none.
pub open spec fn first_break(s: Seq<char>) -> nat
    decreases s.len(),
{
    if s.len() < 2 {
        s.len()
    } else if s[0] == '\r' && s[1] == '\n' {
        0
    } else {
        1 + first_break(s.drop_first())
    }
}

/// The text cut at each CRLF pair, the terminators dropped: one piece more
/// than there are terminators, so a terminated text ends with an empty piece.
pub open spec fn split_crlf(s: Seq<char>) -> Seq<Seq<char>>
    decreases s.len(),
{
    let i = first_break(s) as int;
    if i + 2 <= s.len() {
        seq![s.subrange(0, i)] + split_crlf(s.subrange(i + 2, s.len() as int))
    } else {
        seq![s]
    }
}

proof fn lemma_first_break_none(s: Seq<char>)
    requires
        no_crlf(s),
    ensures
        first_break(s) == s.len(),
    decreases s.len(),
{
    if s.len() >= 2 {
        assert(!(s[0] == '\r' && s[1] == '\n'));
        assert(no_crlf(s.drop_first())) by {
            assert forall|i: int| 0 <= i < s.drop_first().len() - 1 implies !((
            #[trigger] s.drop_first()[i]) == '\r' && s.drop_first()[i + 1] == '\n') by {
                assert(s.drop_first()[i] == s[i + 1]);
                assert(s.drop_first()[i + 1] == s[i + 2]);
            }
        }
        lemma_first_break_none(s.drop_first());
    }
}

proof fn lemma_first_break_concat(a: Seq<char>, b: Seq<char>)
    requires
        no_crlf(a),
        b.len() >= 2,
        b[0] == '\r',
        b[1] == '\n',
    ensures
        first_break(a + b) == a.len(),
    decreases a.len(),
{
    let s = a + b;
    if a.len() == 0 {
        assert(s =~= b);
    } else {
        assert(s[0] == a[0]);
        if a.len() >= 2 {
            assert(s[1] == a[1]);
            assert(!(s[0] == '\r' && s[1] == '\n'));
        } else {
            assert(s[1] == b[0]);
            assert(s[1] == '\r');
        }
        assert(s.drop_first() =~= a.drop_first() + b);
        assert(no_crlf(a.drop_first())) by {
            assert forall|i: int| 0 <= i < a.drop_first().len() - 1 implies !((
            #[trigger] a.drop_first()[i]) == '\r' && a.drop_first()[i + 1] == '\n') by {
                assert(a.drop_first()[i] == a[i + 1]);
                assert(a.drop_first()[i + 1] == a[i + 2]);
            }
        }
        lemma_first_break_concat(a.drop_first(), b);
    }
}

/// Splitting at CRLF takes one line off the front, when the line itself has
/// no CRLF inside.
pub proof fn lemma_split_line(a: Seq<char>, b: Seq<char>)
    requires
        no_crlf(a),
    ensures
        split_crlf(a + seq!['\r', '\n'] + b) == seq![a] + split_crlf(b),
{
    let s = a + seq!['\r', '\n'] + b;
    assert(s =~= a + (seq!['\r', '\n'] + b));
    assert((seq!['\r', '\n'] + b)[0] == '\r');
    assert((seq!['\r', '\n'] + b)[1] == '\n');
    lemma_first_break_concat(a, seq!['\r', '\n'] + b);
    assert(first_break(s) == a.len());
    assert(s.subrange(0, a.len() as int) =~= a);
    assert(s.subrange(a.len() as int + 2, s.len() as int) =~= b);
    assert(split_crlf(s) == seq![a] + split_crlf(b));
}

/// Splitting a CRLF-terminated block of lines gives the lines back, plus the
/// empty piece after the last terminator.
pub proof fn lemma_split_crlf_terminated(lines: Seq<Seq<char>>)
    requires
        forall|i: int| 0 <= i < lines.len() ==> no_crlf(#[trigger] lines[i]),
    ensures
        split_crlf(crlf_terminated(lines)) == lines.push(Seq::<char>::empty()),
    decreases lines.len(),
{
    if lines.len() == 0 {
        assert(first_break(Seq::<char>::empty()) == 0);
        assert(split_crlf(Seq::<char>::empty()) =~= seq![Seq::<char>::empty()]);
        assert(lines.push(Seq::<char>::empty()) =~= seq![Seq::<char>::empty()]);
    } else {
        assert(crlf_terminated(lines) == lines[0] + seq!['\r', '\n'] + crlf_terminated(
            lines.drop_first(),
        ));
        lemma_split_line(lines[0], crlf_terminated(lines.drop_first()));
        assert(forall|i: int|
            0 <= i < lines.drop_first().len() ==> no_crlf(#[trigger] lines.drop_first()[i]));
        lemma_split_crlf_terminated(lines.drop_first());
        assert(seq![lines[0]] + lines.drop_first().push(Seq::<char>::empty()) =~= lines.push(
            Seq::<char>::empty(),
        ));
    }
}

/// The value of the first line that begins with the prefix.
pub open spec fn line_value(lines: Seq<Seq<char>>, prefix: Seq<char>) -> Option<Seq<char>>
    decreases lines.len(),
{
    if lines.len() == 0 {
        None
    } else if prefix.is_prefix_of(lines[0]) {
        Some(lines[0].subrange(prefix.len() as int, lines[0].len() as int))
    } else {
        line_value(lines.drop_first(), prefix)
    }
}

/// Splits a document at each CRLF terminator.
pub fn split_lines(s: &str) -> (r: Vec<String>)
    ensures
        r@.map_values(|l: String| l@) == split_crlf(s@),
{
    let n = s.unicode_len();
    let mut out: Vec<String> = Vec::new();
    let mut st: usize = 0;
    let mut j: usize = 0;
    proof {
        assert(out@.map_values(|l: String| l@) =~= Seq::<Seq<char>>::empty());
        assert(s@.skip(0) =~= s@);
    }
    while j < n
        invariant
            0 <= st <= j <= n,
            n == s@.len(),
            split_crlf(s@) == out@.map_values(|l: String| l@) + split_crlf(s@.skip(st as int)),
            no_crlf(s@.subrange(st as int, j as int)),
            (j < n && j > st) ==> !(s@[j - 1] == '\r' && s@[j as int] == '\n'),
        decreases n - j,
    {
        let ghost old_views = out@.map_values(|l: String| l@);
        let c = s.get_char(j);
        let is_break = if c == '\r' && j + 1 < n {
            s.get_char(j + 1) == '\n'
        } else {
            false
        };
        if is_break {
            let line = String::from_str(s.substring_char(st, j));
            out.push(line);
            proof {
                assert(s@.skip(st as int) =~= s@.subrange(st as int, j as int) + seq!['\r', '\n']
                    + s@.skip(j + 2));
                lemma_split_line(s@.subrange(st as int, j as int), s@.skip(j + 2));
                assert(out@.map_values(|l: String| l@) =~= old_views.push(
                    s@.subrange(st as int, j as int),
                ));
                assert(split_crlf(s@) =~= out@.map_values(|l: String| l@) + split_crlf(
                    s@.skip(j + 2),
                ));
                assert(s@.subrange(j + 2, j + 2).len() == 0);
            }
            st = j + 2;
            j = j + 2;
            proof {
                assert(no_crlf(s@.subrange(st as int, j as int)));
            }
        } else {
            j = j + 1;
            proof {
                assert(s@.subrange(st as int, j as int) =~= s@.subrange(st as int, j - 1).push(
                    s@[j - 1],
                ));
                let cur = s@.subrange(st as int, j as int);
                assert forall|i: int| 0 <= i < cur.len() - 1 implies !((#[trigger] cur[i]) == '\r'
                    && cur[i + 1] == '\n') by {
                    assert(cur[i] == s@[st + i]);
                    assert(cur[i + 1] == s@[st + i + 1]);
                }
            }
        }
    }
    let line = String::from_str(s.substring_char(st, n));
    out.push(line);
    proof {
        assert(s@.skip(st as int) =~= s@.subrange(st as int, n as int));
        lemma_first_break_none(s@.skip(st as int));
        assert(split_crlf(s@.skip(st as int)) =~= seq![s@.skip(st as int)]);
        assert(out@.map_values(|l: String| l@) =~= split_crlf(s@));
    }
    out
}

/// The text after the prefix, from the first line that begins with it.
pub fn find_line_value(lines: &Vec<String>, prefix: &str) -> (r: Option<String>)
    ensures
        r is Some <==> line_value(lines@.map_values(|l: String| l@), prefix@) is Some,
        r matches Some(v) ==> line_value(lines@.map_values(|l: String| l@), prefix@) == Some(v@),
{
    let ghost views = lines@.map_values(|l: String| l@);
    let mut i: usize = 0;
    proof {
        assert(views.skip(0) =~= views);
    }
    while i < lines.len()
        invariant
            0 <= i <= lines@.len(),
            views == lines@.map_values(|l: String| l@),
            line_value(views, prefix@) == line_value(views.skip(i as int), prefix@),
        decreases lines@.len() - i,
    {
        proof {
            assert(views.skip(i as int)[0] == views[i as int]);
        }
        if str_starts_with(lines[i].as_str(), prefix) {
            let np = prefix.unicode_len();
            let ll = lines[i].as_str().unicode_len();
            let v = String::from_str(lines[i].as_str().substring_char(np, ll));
            proof {
                assert(prefix@.is_prefix_of(views[i as int]));
            }
            return Some(v);
        }
        proof {
            assert(!prefix@.is_prefix_of(views[i as int]));
            assert(views.skip(i as int).drop_first() =~= views.skip(i + 1));
        }
        i = i + 1;
    }
    proof {
        assert(views.skip(i as int).len() == 0);
    }
    None
}

/// The exported fields read back from a document.
pub struct IcsParsed {
    pub dtstart: String,
    pub dtend: String,
    pub summary: String,
    pub description: String,
    pub location: String,
}

/// Parses an exported document: the values of the first DTSTART, DTEND,
/// SUMMARY, DESCRIPTION and LOCATION lines, when all five are present.
pub fn parse_ics(doc: &str) -> (r: Option<IcsParsed>)
    ensures
        r is Some <==> (line_value(split_crlf(doc@), "DTSTART:"@) is Some && line_value(
            split_crlf(doc@),
            "DTEND:"@,
        ) is Some && line_value(split_crlf(doc@), "SUMMARY:"@) is Some && line_value(
            split_crlf(doc@),
            "DESCRIPTION:"@,
        ) is Some && line_value(split_crlf(doc@), "LOCATION:"@) is Some),
        r matches Some(p) ==> (line_value(split_crlf(doc@), "DTSTART:"@) == Some(p.dtstart@)
            && line_value(split_crlf(doc@), "DTEND:"@) == Some(p.dtend@) && line_value(
            split_crlf(doc@),
            "SUMMARY:"@,
        ) == Some(p.summary@) && line_value(split_crlf(doc@), "DESCRIPTION:"@) == Some(
            p.description@,
        ) && line_value(split_crlf(doc@), "LOCATION:"@) == Some(p.location@)),
{
    let lines = split_lines(doc);
    let dtstart = find_line_value(&lines, "DTSTART:");
    let dtend = find_line_value(&lines, "DTEND:");
    let summary = find_line_value(&lines, "SUMMARY:");
    let description = find_line_value(&lines, "DESCRIPTION:");
    let location = find_line_value(&lines, "LOCATION:");
    match (dtstart, dtend, summary, description, location) {
        (Some(dtstart), Some(dtend), Some(summary), Some(description), Some(location)) => Some(
            IcsParsed { dtstart, dtend, summary, description, location },
        ),
        _ => None,
    }
}

proof fn lemma_not_prefix_char(p: Seq<char>, s: Seq<char>, i: int)
    requires
        0 <= i < p.len(),
        i < s.len(),
        p[i] != s[i],
    ensures
        !p.is_prefix_of(s),
{
    if p.is_prefix_of(s) {
        assert(p =~= s.subrange(0, p.len() as int));
        assert(p[i] == s.subrange(0, p.len() as int)[i]);
        assert(false);
    }
}

proof fn lemma_line_value_at(lines: Seq<Seq<char>>, prefix: Seq<char>, k: int)
    requires
        0 <= k < lines.len(),
        forall|i: int| 0 <= i < k ==> !prefix.is_prefix_of(#[trigger] lines[i]),
        prefix.is_prefix_of(lines[k]),
    ensures
        line_value(lines, prefix) == Some(
            lines[k].subrange(prefix.len() as int, lines[k].len() as int),
        ),
    decreases k,
{
    if k > 0 {
        assert(!prefix.is_prefix_of(lines[0]));
        assert(forall|i: int|
            0 <= i < k - 1 ==> !prefix.is_prefix_of(#[trigger] lines.drop_first()[i]));
        assert(lines.drop_first()[k - 1] == lines[k]);
        lemma_line_value_at(lines.drop_first(), prefix, k - 1);
    }
}

proof fn lemma_line_safe_concat(a: Seq<char>, b: Seq<char>)
    requires
        line_safe(a),
        line_safe(b),
    ensures
        line_safe(a + b),
        no_crlf(a + b),
{
    assert forall|i: int| 0 <= i < (a + b).len() implies ((#[trigger] (a + b)[i]) != '\r' && (a
        + b)[i] != '\n') by {
        if i < a.len() {
            assert((a + b)[i] == a[i]);
        } else {
            assert((a + b)[i] == b[i - a.len()]);
        }
    }
}

proof fn lemma_literals_line_safe()
    ensures
        line_safe("BEGIN:VCALENDAR"@),
        line_safe("VERSION:2.0"@),
        line_safe("PRODID:ics-rs"@),
        line_safe("BEGIN:VEVENT"@),
        line_safe("UID:"@),
        line_safe("DTSTAMP:"@),
        line_safe("CREATED:"@),
        line_safe("DTSTART:"@),
        line_safe("DTEND:"@),
        line_safe("SUMMARY:"@),
        line_safe("DESCRIPTION:"@),
        line_safe("LOCATION:"@),
        line_safe("STATUS:NEEDS-ACTION"@),
        line_safe("CLASS:PUBLIC"@),
        line_safe("URL:"@),
        line_safe("END:VEVENT"@),
        line_safe("END:VCALENDAR"@),
{
    reveal_strlit("BEGIN:VCALENDAR");
    reveal_strlit("VERSION:2.0");
    reveal_strlit("PRODID:ics-rs");
    reveal_strlit("BEGIN:VEVENT");
    reveal_strlit("UID:");
    reveal_strlit("DTSTAMP:");
    reveal_strlit("CREATED:");
    reveal_strlit("DTSTART:");
    reveal_strlit("DTEND:");
    reveal_strlit("SUMMARY:");
    reveal_strlit("DESCRIPTION:");
    reveal_strlit("LOCATION:");
    reveal_strlit("STATUS:NEEDS-ACTION");
    reveal_strlit("CLASS:PUBLIC");
    reveal_strlit("URL:");
    reveal_strlit("END:VEVENT");
    reveal_strlit("END:VCALENDAR");
}

/// Round trip: a document generated from line-safe field values parses back
/// to the same timestamps, summary, description, and location text.
#[verifier::rlimit(100)]
pub proof fn lemma_ics_round_trip(
    uid: Seq<char>,
    dtstamp: Seq<char>,
    dtend: Seq<char>,
    summary: Seq<char>,
    description: Seq<char>,
    location: Seq<char>,
    url: Seq<char>,
)
    requires
        line_safe(uid),
        line_safe(dtstamp),
        line_safe(dtend),
        line_safe(summary),
        line_safe(description),
        line_safe(location),
        line_safe(url),
    ensures
        line_value(
            split_crlf(ics_doc_of(uid, dtstamp, dtend, summary, description, location, url)),
            "DTSTART:"@,
        ) == Some(dtstamp),
        line_value(
            split_crlf(ics_doc_of(uid, dtstamp, dtend, summary, description, location, url)),
            "DTEND:"@,
        ) == Some(dtend),
        line_value(
            split_crlf(ics_doc_of(uid, dtstamp, dtend, summary, description, location, url)),
            "SUMMARY:"@,
        ) == Some(summary),
        line_value(
            split_crlf(ics_doc_of(uid, dtstamp, dtend, summary, description, location, url)),
            "DESCRIPTION:"@,
        ) == Some(description),
        line_value(
            split_crlf(ics_doc_of(uid, dtstamp, dtend, summary, description, location, url)),
            "LOCATION:"@,
        ) == Some(location),
{
    reveal_strlit("BEGIN:VCALENDAR");
    reveal_strlit("VERSION:2.0");
    reveal_strlit("PRODID:ics-rs");
    reveal_strlit("BEGIN:VEVENT");
    reveal_strlit("UID:");
    reveal_strlit("DTSTAMP:");
    reveal_strlit("CREATED:");
    reveal_strlit("DTSTART:");
    reveal_strlit("DTEND:");
    reveal_strlit("SUMMARY:");
    reveal_strlit("DESCRIPTION:");
    reveal_strlit("LOCATION:");
    reveal_strlit("STATUS:NEEDS-ACTION");
    reveal_strlit("CLASS:PUBLIC");
    reveal_strlit("URL:");
    reveal_strlit("END:VEVENT");
    reveal_strlit("END:VCALENDAR");
    lemma_literals_line_safe();
    let lines = ics_lines_of(uid, dtstamp, dtend, summary, description, location, url);
    lemma_line_safe_concat("UID:"@, uid);
    lemma_line_safe_concat("DTSTAMP:"@, dtstamp);
    lemma_line_safe_concat("CREATED:"@, dtstamp);
    lemma_line_safe_concat("DTSTART:"@, dtstamp);
    lemma_line_safe_concat("DTEND:"@, dtend);
    lemma_line_safe_concat("SUMMARY:"@, summary);
    lemma_line_safe_concat("DESCRIPTION:"@, description);
    lemma_line_safe_concat("LOCATION:"@, location);
    lemma_line_safe_concat("URL:"@, url);
    assert forall|i: int| 0 <= i < lines.len() implies no_crlf(#[trigger] lines[i]) by {
        assert(line_safe(lines[i]));
    }
    lemma_split_crlf_terminated(lines);
    let split = lines.push(Seq::<char>::empty());
    assert(split_crlf(ics_doc_of(uid, dtstamp, dtend, summary, description, location, url))
        == split);
    // DTSTART: its line is the eighth; no earlier line begins with it
    assert forall|i: int| 0 <= i < 7 implies !"DTSTART:"@.is_prefix_of(#[trigger] split[i]) by {
        if i == 5 {
            assert(split[5][5] == 'M');
            lemma_not_prefix_char("DTSTART:"@, split[i], 5);
        } else {
            lemma_not_prefix_char("DTSTART:"@, split[i], 0);
        }
    }
    assert("DTSTART:"@.is_prefix_of(split[7])) by {
        assert(split[7].subrange(0, 8) =~= "DTSTART:"@);
    }
    lemma_line_value_at(split, "DTSTART:"@, 7);
    assert(split[7].subrange(8, split[7].len() as int) =~= dtstamp);
    // DTEND: its line is the ninth
    assert forall|i: int| 0 <= i < 8 implies !"DTEND:"@.is_prefix_of(#[trigger] split[i]) by {
        if i == 5 || i == 7 {
            assert(split[i][2] == 'S');
            lemma_not_prefix_char("DTEND:"@, split[i], 2);
        } else {
            lemma_not_prefix_char("DTEND:"@, split[i], 0);
        }
    }
    assert("DTEND:"@.is_prefix_of(split[8])) by {
        assert(split[8].subrange(0, 6) =~= "DTEND:"@);
    }
    lemma_line_value_at(split, "DTEND:"@, 8);
    assert(split[8].subrange(6, split[8].len() as int) =~= dtend);
    // SUMMARY: its line is the tenth; earlier lines differ in their first
    // character already
    assert forall|i: int| 0 <= i < 9 implies !"SUMMARY:"@.is_prefix_of(#[trigger] split[i]) by {
        lemma_not_prefix_char("SUMMARY:"@, split[i], 0);
    }
    assert("SUMMARY:"@.is_prefix_of(split[9])) by {
        assert(split[9].subrange(0, 8) =~= "SUMMARY:"@);
    }
    lemma_line_value_at(split, "SUMMARY:"@, 9);
    assert(split[9].subrange(8, split[9].len() as int) =~= summary);
    // DESCRIPTION: its line is the eleventh
    assert forall|i: int| 0 <= i < 10 implies !"DESCRIPTION:"@.is_prefix_of(
        #[trigger] split[i],
    ) by {
        if i == 5 || i == 7 || i == 8 {
            assert(split[i][1] == 'T');
            lemma_not_prefix_char("DESCRIPTION:"@, split[i], 1);
        } else {
            lemma_not_prefix_char("DESCRIPTION:"@, split[i], 0);
        }
    }
    assert("DESCRIPTION:"@.is_prefix_of(split[10])) by {
        assert(split[10].subrange(0, 12) =~= "DESCRIPTION:"@);
    }
    lemma_line_value_at(split, "DESCRIPTION:"@, 10);
    assert(split[10].subrange(12, split[10].len() as int) =~= description);
    // LOCATION: its line is the twelfth; no earlier line begins with 'L'
    assert forall|i: int| 0 <= i < 11 implies !"LOCATION:"@.is_prefix_of(#[trigger] split[i]) by {
        lemma_not_prefix_char("LOCATION:"@, split[i], 0);
    }
    assert("LOCATION:"@.is_prefix_of(split[11])) by {
        assert(split[11].subrange(0, 9) =~= "LOCATION:"@);
    }
    lemma_line_value_at(split, "LOCATION:"@, 11);
    assert(split[11].subrange(9, split[11].len() as int) =~= location);
}

/// The `YYYYMMDDTHHMMSS` stamp of a timestamp's civil time.
pub open spec fn stamp_of(ts: int) -> Seq<char> {
    four_digit_str(civil_date_of(ts / 86400).0) + two_digit_str(civil_date_of(ts / 86400).1)
        + two_digit_str(civil_date_of(ts / 86400).2) + seq!['T'] + two_digit_str(
        (ts % 86400) / 3600,
    ) + two_digit_str(((ts % 86400) / 60) % 60) + two_digit_str(ts % 60)
}

/// The shape of a hyphenated UUID: 36 characters, lowercase hexadecimal
/// digits and hyphens.
pub open spec fn uuid_shape(s: Seq<char>) -> bool {
    s.len() == 36 && forall|i: int|
        0 <= i < s.len() ==> (('0' <= #[trigger] s[i] && s[i] <= '9') || ('a' <= s[i] && s[i]
            <= 'f') || s[i] == '-')
}

/// Relies on `uuid::Uuid::new_v4` and its hyphenated `Display` form: 36
/// characters, lowercase hexadecimal digits and hyphens. Nothing more is
/// assumed of the draw.
#[verifier::external_body]
fn new_uuid_string() -> (r: String)
    ensures
        uuid_shape(r@),
{
    uuid::Uuid::new_v4().to_string()
}

impl Event {
    /// Exports this event as an iCalendar document holding one VEVENT, under
    /// a freshly drawn unique identifier. `None` when a timestamp cannot be
    /// rendered: outside the calendar conversion's range, or in a year
    /// outside 0 to 9999.
    pub fn get_ics(&self) -> (r: Option<String>)
        ensures
            (0 <= self.time <= 253402300799 && 0 <= self.time_end <= 253402300799) ==> r is Some,
            r matches Some(doc) ==> exists|uid: Seq<char>|
                uuid_shape(uid) && doc@ == ics_doc_of(
                    uid,
                    stamp_of(self.time as int),
                    stamp_of(self.time_end as int),
                    self.name@,
                    self.description@,
                    location_text(self.location),
                    event_url(self.id as int),
                ),
    {
        let c1 = match crate::civil::civil_from_timestamp(self.time) {
            Some(c) => c,
            None => return None,
        };
        if c1.year < 0 || c1.year > 9999 {
            return None;
        }
        let c2 = match crate::civil::civil_from_timestamp(self.time_end) {
            Some(c) => c,
            None => return None,
        };
        if c2.year < 0 || c2.year > 9999 {
            return None;
        }
        let stamp = format_stamp(&c1);
        let endstamp = format_stamp(&c2);
        let uid = new_uuid_string();
        let loc = self.location.to_ics_location();
        let url = event_url_string(self.id);
        let doc = build_ics_document(
            uid.as_str(),
            stamp.as_str(),
            endstamp.as_str(),
            self.name.as_str(),
            self.description.as_str(),
            loc.as_str(),
            url.as_str(),
        );
        proof {
            assert(stamp@ == stamp_of(self.time as int));
            assert(endstamp@ == stamp_of(self.time_end as int));
            assert(uuid_shape(uid@) && doc@ == ics_doc_of(
                uid@,
                stamp_of(self.time as int),
                stamp_of(self.time_end as int),
                self.name@,
                self.description@,
                location_text(self.location),
                event_url(self.id as int),
            ));
        }
        Some(doc)
    }
}

} // verus!
