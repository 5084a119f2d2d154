//! Line-in: finding the ALSA input source, the loopback that routes it into
//! the capture sink, and the status reported to clients.
use vstd::prelude::*;

use crate::text::{
    append_str, chars_of, line_ranges, lines, parse_u32, parse_unsigned, range_views, ranges_in,
    starts_with, starts_with_exec, string_of, trim, trim_bounds, word_ranges, words,
};

verus! {

/// Line-in availability and activity, as reported to clients.
#[derive(Debug)]
pub struct LineInStatus {
    pub available: bool,
    pub active: bool,
    pub source_name: Option<String>,
}

/// The status for the detected source (if any) and the activity flag.
pub fn line_in_status(source: &Option<String>, active: bool) -> (r: LineInStatus)
    ensures
        r.available == (source is Some),
        r.active == active,
        r.source_name.deep_view() == source.deep_view(),
{
    let source_name = match source {
        Some(s) => Some(s.clone()),
        None => None,
    };
    LineInStatus { available: source.is_some(), active, source_name }
}

/// The line-in source named on a `pactl list short sources` line: its second
/// word, when that is an ALSA input.
pub open spec fn line_in_of_line(line: Seq<char>) -> Option<Seq<char>> {
    let w = words(line);
    if w.len() >= 2 && starts_with(w[1], "alsa_input."@) {
        Some(w[1])
    } else {
        None
    }
}

/// The first line-in source of a listing.
pub open spec fn first_line_in(ls: Seq<Seq<char>>) -> Option<Seq<char>>
    decreases ls.len(),
{
    if ls.len() == 0 {
        None
    } else {
        match line_in_of_line(ls[0]) {
            Some(s) => Some(s),
            None => first_line_in(ls.drop_first()),
        }
    }
}

/// Whether the second word of a listing line is an ALSA input.
pub open spec fn names_alsa_input(line: Seq<char>) -> bool {
    words(line).len() >= 2 && starts_with(words(line)[1], "alsa_input."@)
}

/// A line-in source found is an ALSA input (its name starts with
/// `alsa_input.`), and it is the second word of some line of the listing.
pub proof fn lemma_line_in_is_alsa_input(ls: Seq<Seq<char>>)
    ensures
        first_line_in(ls) matches Some(src) ==> starts_with(src, "alsa_input."@) && exists|i: int|
            0 <= i < ls.len() && words(#[trigger] ls[i]).len() >= 2 && words(ls[i])[1] == src,
    decreases ls.len(),
{
    if ls.len() > 0 {
        let t = ls.drop_first();
        lemma_line_in_is_alsa_input(t);
        if line_in_of_line(ls[0]) is None {
            if let Some(src) = first_line_in(t) {
                let i = choose|i: int| 0 <= i < t.len() && words(#[trigger] t[i]).len() >= 2 && words(t[i])[1] == src;
                assert(ls[i + 1] == t[i]);
            }
        }
    }
}

/// The source is the second word of the first line that names an ALSA
/// input, whatever later lines hold.
pub proof fn lemma_line_in_first(ls: Seq<Seq<char>>, i: int)
    requires
        0 <= i < ls.len(),
        names_alsa_input(ls[i]),
        forall|j: int| 0 <= j < i ==> !names_alsa_input(#[trigger] ls[j]),
    ensures
        first_line_in(ls) == Some(words(ls[i])[1]),
    decreases i,
{
    if i > 0 {
        let t = ls.drop_first();
        assert(!names_alsa_input(ls[0]));
        assert forall|j: int| 0 <= j < i - 1 implies !names_alsa_input(#[trigger] t[j]) by {
            assert(t[j] == ls[j + 1]);
        }
        assert(t[i - 1] == ls[i]);
        lemma_line_in_first(t, i - 1);
    }
}

/// A listing in which no line names an ALSA input has no line-in source.
pub proof fn lemma_line_in_none(ls: Seq<Seq<char>>)
    requires
        forall|j: int| 0 <= j < ls.len() ==> !names_alsa_input(#[trigger] ls[j]),
    ensures
        first_line_in(ls) is None,
    decreases ls.len(),
{
    if ls.len() > 0 {
        let t = ls.drop_first();
        assert(!names_alsa_input(ls[0]));
        assert forall|j: int| 0 <= j < t.len() implies !names_alsa_input(#[trigger] t[j]) by {
            assert(t[j] == ls[j + 1]);
        }
        lemma_line_in_none(t);
    }
}

fn piece<'a>(s: &'a [char], rs: &Vec<(usize, usize)>, k: usize) -> (p: &'a [char])
    requires
        ranges_in(s@, rs@),
        k < rs@.len(),
    ensures
        p@ == range_views(s@, rs@)[k as int],
{
    let (a, b) = rs[k];
    &s[a..b]
}

/// Parse pactl output to find an alsa_input source (line-in).
pub fn parse_line_in_source(pactl_output: &str) -> (r: Option<String>)
    ensures
        r.deep_view() == first_line_in(lines(pactl_output@)),
{
    let cs = chars_of(pactl_output);
    let lr = line_ranges(&cs);
    let ghost ls = lines(cs@);
    let prefix = chars_of("alsa_input.");
    let mut k: usize = 0;
    proof {
        assert(ls.skip(0) =~= ls);
    }
    while k < lr.len()
        invariant
            ranges_in(cs@, lr@),
            range_views(cs@, lr@) == ls,
            ls == lines(pactl_output@),
            prefix@ == "alsa_input."@,
            0 <= k <= lr@.len(),
            first_line_in(ls) == first_line_in(ls.skip(k as int)),
        decreases lr.len() - k,
    {
        let line = piece(&cs, &lr, k);
        proof {
            assert(ls.skip(k as int).drop_first() =~= ls.skip(k + 1));
            assert(ls.skip(k as int)[0] == line@);
        }
        let wr = word_ranges(line);
        if wr.len() >= 2 {
            let w = piece(line, &wr, 1);
            if starts_with_exec(w, &prefix) {
                let r = Some(string_of(w));
                assert(r.deep_view() == first_line_in(ls.skip(k as int)));
                return r;
            }
        }
        k = k + 1;
    }
    assert(ls.skip(lr@.len() as int) =~= Seq::<Seq<char>>::empty());
    None
}

/// The `pactl` arguments of the loopback routing `source` into `sink`.
pub open spec fn loopback_args_of(source: Seq<char>, sink: Seq<char>) -> Seq<Seq<char>> {
    seq![
        "load-module"@,
        "module-loopback"@,
        "source="@ + source,
        "sink="@ + sink,
        "latency_msec=20"@,
        "source_dont_move=true"@,
        "sink_dont_move=true"@,
    ]
}

fn text_with(a: &str, b: &str) -> (r: String)
    ensures
        r@ == a@ + b@,
{
    let mut v: Vec<char> = Vec::new();
    append_str(&mut v, a);
    append_str(&mut v, b);
    string_of(&v)
}

/// The `pactl` arguments of the loopback routing `source` into `sink`.
pub fn loopback_args(source: &str, sink: &str) -> (r: Vec<String>)
    ensures
        r.deep_view() == loopback_args_of(source@, sink@),
{
    let mut r: Vec<String> = Vec::new();
    r.push(String::from_str("load-module"));
    r.push(String::from_str("module-loopback"));
    r.push(text_with("source=", source));
    r.push(text_with("sink=", sink));
    r.push(String::from_str("latency_msec=20"));
    r.push(String::from_str("source_dont_move=true"));
    r.push(String::from_str("sink_dont_move=true"));
    assert(r.deep_view() =~= loopback_args_of(source@, sink@));
    r
}

/// Activation needs a detected source.
pub fn activation_source(detected: Option<String>) -> (r: Result<String, String>)
    ensures
        match r {
            Ok(s) => detected.deep_view() == Some(s@),
            Err(e) => detected is None && e@ == "No line-in source available"@,
        },
{
    match detected {
        Some(s) => Ok(s),
        None => Err(String::from_str("No line-in source available")),
    }
}

/// What loading the loopback module gave: its module id, or the error.
pub open spec fn loopback_outcome_of(success: bool, stdout: Seq<char>, stderr: Seq<char>) -> Result<
    u32,
    Seq<char>,
> {
    if !success {
        Err("Failed to load loopback module: "@ + stderr)
    } else {
        match parse_unsigned(trim(stdout), u32::MAX as nat) {
            Some(id) => Ok(id as u32),
            None => Err("Failed to parse module ID"@),
        }
    }
}

/// Interpret the result of `pactl load-module module-loopback ...`.
pub fn loopback_outcome(success: bool, stdout: &str, stderr: &str) -> (r: Result<u32, String>)
    ensures
        match r {
            Ok(id) => loopback_outcome_of(success, stdout@, stderr@) == Ok::<u32, Seq<char>>(id),
            Err(e) => loopback_outcome_of(success, stdout@, stderr@) == Err::<u32, Seq<char>>(e@),
        },
{
    if !success {
        return Err(text_with("Failed to load loopback module: ", stderr));
    }
    let cs = chars_of(stdout);
    let (a, b) = trim_bounds(&cs);
    match parse_u32(&cs[a..b]) {
        Some(id) => Ok(id),
        None => Err(String::from_str("Failed to parse module ID")),
    }
}

} // verus!
