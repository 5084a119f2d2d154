//! The capture pipeline's null sink: finding an existing one, creating it
//! with retries, and choosing the default sink with and without the EQ.
use vstd::prelude::*;

use crate::text::{
    append_str, char_is_digit, chars_of, contains, contains_exec, decimal, find, find_exec, is_digit,
    lemma_parse_decimal, lemma_decimal_digits, lemma_find_some, lemma_trail, ws, is_ws,
    lead, lemma_find_is_match, lemma_lead, line_ranges, lines, matches_at, not_digit, parse_u32,
    parse_unsigned, range_views, ranges_in, starts_with, starts_with_exec, string_of, trim,
    trim_bounds, trim_start_by,
};

verus! {

/// The null sink that collects the audio to capture.
pub const NULL_SINK_NAME: &'static str = "soundsync-capture";

/// Its human-readable description.
pub const NULL_SINK_DESC: &'static str = "SoundSync-Capture";

/// The input of the EQ filter-chain; the default sink while the EQ runs.
pub const EQ_SINK_NAME: &'static str = "effect_input.soundsync-eq";

/// How many times loading the null sink module is tried.
pub const MAX_LOAD_ATTEMPTS: u32 = 10;

/// Scan of `pactl list modules` output: `cur` is the id of the module being
/// read and `is_null` whether it is a `module-null-sink`. The first argument
/// line of a null sink that mentions `sink` gives the id.
pub open spec fn null_sink_from(
    ls: Seq<Seq<char>>,
    sink: Seq<char>,
    cur: Option<u32>,
    is_null: bool,
) -> Option<u32>
    decreases ls.len(),
{
    if ls.len() == 0 {
        None
    } else {
        let t = trim(ls[0]);
        if starts_with(t, "Module #"@) {
            let id = match parse_unsigned(t.skip(8), u32::MAX as nat) {
                Some(v) => Some(v as u32),
                None => None,
            };
            null_sink_from(ls.drop_first(), sink, id, false)
        } else if starts_with(t, "Name:"@) {
            null_sink_from(ls.drop_first(), sink, cur, contains(t, "module-null-sink"@))
        } else if starts_with(t, "Argument:"@) && is_null && contains(t, sink) {
            cur
        } else {
            null_sink_from(ls.drop_first(), sink, cur, is_null)
        }
    }
}

fn piece<'a>(s: &'a [char], rs: &Vec<(usize, usize)>, k: usize) -> (p: &'a [char])
    requires
        ranges_in(s@, rs@),
        k < rs@.len(),
    ensures
        p@ == range_views(s@, rs@)[k as int],
{
    let (a, b) = rs[k];
    &s[a..b]
}

/// Parse `pactl list modules` output to find a module-null-sink by sink name.
pub fn parse_null_sink_module_id(pactl_output: &str, sink_name: &str) -> (r: Option<u32>)
    ensures
        r == null_sink_from(lines(pactl_output@), sink_name@, None, false),
{
    let cs = chars_of(pactl_output);
    let lr = line_ranges(&cs);
    let ghost ls = lines(cs@);
    let sink = chars_of(sink_name);
    let module = chars_of("Module #");
    let name = chars_of("Name:");
    let argument = chars_of("Argument:");
    let null_sink = chars_of("module-null-sink");
    let mut current_id: Option<u32> = None;
    let mut is_null_sink = false;
    let mut k: usize = 0;
    proof {
        assert(ls.skip(0) =~= ls);
        assert("Module #"@.len() == 8) by {
            reveal_strlit("Module #");
        }
    }
    while k < lr.len()
        invariant
            ranges_in(cs@, lr@),
            range_views(cs@, lr@) == ls,
            ls == lines(pactl_output@),
            sink@ == sink_name@,
            module@ == "Module #"@,
            module@.len() == 8,
            name@ == "Name:"@,
            argument@ == "Argument:"@,
            null_sink@ == "module-null-sink"@,
            0 <= k <= lr@.len(),
            null_sink_from(ls, sink_name@, None, false) == null_sink_from(
                ls.skip(k as int),
                sink_name@,
                current_id,
                is_null_sink,
            ),
        decreases lr.len() - k,
    {
        let line = piece(&cs, &lr, k);
        proof {
            assert(ls.skip(k as int).drop_first() =~= ls.skip(k + 1));
            assert(ls.skip(k as int)[0] == line@);
        }
        let (a, b) = trim_bounds(line);
        let t = &line[a..b];
        if starts_with_exec(t, &module) {
            let rest = &t[8..t.len()];
            assert(rest@ =~= t@.skip(8));
            current_id = parse_u32(rest);
            is_null_sink = false;
        } else if starts_with_exec(t, &name) {
            is_null_sink = contains_exec(t, &null_sink);
        } else if starts_with_exec(t, &argument) && is_null_sink && contains_exec(t, &sink) {
            return current_id;
        }
        k = k + 1;
    }
    assert(ls.skip(lr@.len() as int) =~= Seq::<Seq<char>>::empty());
    None
}

/// A `Module #n` line starts a new module block: whatever was read before,
/// the id in force is then `n` and the block is not yet known to be a null
/// sink.
pub proof fn lemma_module_header_resets(
    header: Seq<char>,
    n: u32,
    rest: Seq<Seq<char>>,
    sink: Seq<char>,
    cur: Option<u32>,
    is_null: bool,
)
    requires
        trim(header) == "Module #"@ + decimal(n as nat),
    ensures
        null_sink_from(seq![header] + rest, sink, cur, is_null) == null_sink_from(
            rest,
            sink,
            Some(n),
            false,
        ),
{
    reveal_strlit("Module #");
    let ls = seq![header] + rest;
    let t = trim(header);
    assert(ls[0] == header);
    assert(ls.drop_first() =~= rest);
    assert(t.take(8) =~= "Module #"@);
    assert(t.skip(8) =~= decimal(n as nat));
    lemma_parse_decimal(n as nat, u32::MAX as nat);
}

/// A module block headed `Module #n` whose name line says
/// `module-null-sink` and whose argument line names the sink gives `n`,
/// whatever modules came before it and whatever follows.
pub proof fn lemma_null_sink_block_found(
    header: Seq<char>,
    name_line: Seq<char>,
    arg_line: Seq<char>,
    n: u32,
    rest: Seq<Seq<char>>,
    sink: Seq<char>,
    cur: Option<u32>,
    is_null: bool,
)
    requires
        trim(header) == "Module #"@ + decimal(n as nat),
        starts_with(trim(name_line), "Name:"@),
        contains(trim(name_line), "module-null-sink"@),
        starts_with(trim(arg_line), "Argument:"@),
        contains(trim(arg_line), sink),
    ensures
        null_sink_from(seq![header, name_line, arg_line] + rest, sink, cur, is_null) == Some(n),
{
    reveal_strlit("Module #");
    reveal_strlit("Name:");
    reveal_strlit("Argument:");
    let ls = seq![header, name_line, arg_line] + rest;
    let tail = seq![name_line, arg_line] + rest;
    assert(ls =~= seq![header] + tail);
    lemma_module_header_resets(header, n, tail, sink, cur, is_null);
    let tn = trim(name_line);
    let ta = trim(arg_line);
    assert(tn[0] == 'N') by {
        assert(tn.take(5) == "Name:"@);
        assert(tn.take(5)[0] == tn[0]);
    }
    assert(!starts_with(tn, "Module #"@)) by {
        if starts_with(tn, "Module #"@) {
            assert(tn.take(8)[0] == 'M');
        }
    }
    assert(tail[0] == name_line);
    let tail2 = seq![arg_line] + rest;
    assert(tail.drop_first() =~= tail2);
    assert(tail2[0] == arg_line);
    assert(ta[0] == 'A') by {
        assert(ta.take(9) == "Argument:"@);
        assert(ta.take(9)[0] == ta[0]);
    }
    assert(!starts_with(ta, "Module #"@)) by {
        if starts_with(ta, "Module #"@) {
            assert(ta.take(8)[0] == 'M');
        }
    }
    assert(!starts_with(ta, "Name:"@)) by {
        if starts_with(ta, "Name:"@) {
            assert(ta.take(5)[0] == 'N');
        }
    }
    assert(null_sink_from(tail2, sink, Some(n), true) == Some(n));
    assert(null_sink_from(tail, sink, Some(n), false) == null_sink_from(tail2, sink, Some(n), true));
}

/// Without an argument line that names the sink there is no id to report.
pub proof fn lemma_null_sink_needs_argument(
    ls: Seq<Seq<char>>,
    sink: Seq<char>,
    cur: Option<u32>,
    is_null: bool,
)
    requires
        forall|i: int|
            0 <= i < ls.len() ==> !(starts_with(trim(#[trigger] ls[i]), "Argument:"@) && contains(
                trim(ls[i]),
                sink,
            )),
    ensures
        null_sink_from(ls, sink, cur, is_null) is None,
    decreases ls.len(),
{
    if ls.len() > 0 {
        assert(!(starts_with(trim(ls[0]), "Argument:"@) && contains(trim(ls[0]), sink)));
        let t = ls.drop_first();
        assert forall|i: int|
            0 <= i < t.len() implies !(starts_with(trim(#[trigger] t[i]), "Argument:"@) && contains(
                trim(t[i]),
                sink,
            )) by {
            assert(t[i] == ls[i + 1]);
        }
        let tr = trim(ls[0]);
        let id = match parse_unsigned(tr.skip(8), u32::MAX as nat) {
            Some(v) => Some(v as u32),
            None => None,
        };
        lemma_null_sink_needs_argument(t, sink, id, false);
        lemma_null_sink_needs_argument(t, sink, cur, contains(tr, "module-null-sink"@));
        lemma_null_sink_needs_argument(t, sink, cur, is_null);
    }
}

/// The node id on a `wpctl status` line that mentions `name`: the digits
/// before the first `.` once the line is trimmed and its leading non-digits
/// dropped.
pub open spec fn wpctl_id_of_line(line: Seq<char>, name: Seq<char>) -> Option<u32> {
    if contains(line, name) {
        let t = trim_start_by(trim(line), not_digit());
        match find(t, seq!['.']) {
            Some(d) => match parse_unsigned(trim(t.take(d)), u32::MAX as nat) {
                Some(v) => Some(v as u32),
                None => None,
            },
            None => None,
        }
    } else {
        None
    }
}

/// The first node id found for `name`, line by line.
pub open spec fn first_wpctl_id(ls: Seq<Seq<char>>, name: Seq<char>) -> Option<u32>
    decreases ls.len(),
{
    if ls.len() == 0 {
        None
    } else {
        match wpctl_id_of_line(ls[0], name) {
            Some(v) => Some(v),
            None => first_wpctl_id(ls.drop_first(), name),
        }
    }
}

fn lead_non_digits(s: &[char]) -> (n: usize)
    ensures
        n == lead(s@, not_digit()),
        n <= s@.len(),
{
    let mut i: usize = 0;
    while i < s.len() && !char_is_digit(s[i])
        invariant
            0 <= i <= s@.len(),
            forall|j: int| 0 <= j < i ==> !is_digit(#[trigger] s@[j]),
        decreases s.len() - i,
    {
        i = i + 1;
    }
    proof {
        assert forall|j: int| 0 <= j < i implies (not_digit())(#[trigger] s@[j]) by {}
        lemma_lead(s@, not_digit(), i as int);
    }
    i
}

fn wpctl_id_of_line_exec(line: &[char], name: &[char]) -> (r: Option<u32>)
    ensures
        r == wpctl_id_of_line(line@, name@),
{
    if !contains_exec(line, name) {
        return None;
    }
    let (a, b) = trim_bounds(line);
    let t0 = &line[a..b];
    let n = lead_non_digits(t0);
    let t = &t0[n..t0.len()];
    assert(t@ =~= trim_start_by(t0@, not_digit()));
    let dot = vec!['.'];
    assert(dot@ =~= seq!['.']);
    match find_exec(t, &dot) {
        Some(d) => {
            proof {
                lemma_find_is_match(t@, dot@);
                assert(matches_at(t@, dot@, d as int));
            }
            let head = &t[0..d];
            assert(head@ =~= t@.take(d as int));
            let (c, e) = trim_bounds(head);
            parse_u32(&head[c..e])
        },
        None => None,
    }
}

/// `lead` counts exactly the leading characters that satisfy `p`.
proof fn lemma_lead_props(s: Seq<char>, p: spec_fn(char) -> bool)
    ensures
        lead(s, p) <= s.len(),
        forall|j: int| 0 <= j < lead(s, p) ==> p(#[trigger] s[j]),
        lead(s, p) < s.len() ==> !p(s[lead(s, p) as int]),
    decreases s.len(),
{
    if s.len() > 0 && p(s[0]) {
        let t = s.drop_first();
        lemma_lead_props(t, p);
        assert forall|j: int| 0 <= j < lead(s, p) implies p(#[trigger] s[j]) by {
            if j > 0 {
                assert(s[j] == t[j - 1]);
            }
        }
        if lead(s, p) < s.len() {
            assert(s[lead(s, p) as int] == t[lead(t, p) as int]);
        }
    }
}

/// A `wpctl status` line that names the node and shows its id as a number
/// followed by a dot (after any bullets, tree marks and spaces, none of them
/// digits) gives that number.
pub proof fn lemma_wpctl_line_id(pre: Seq<char>, n: u32, post: Seq<char>, name: Seq<char>)
    requires
        forall|j: int| 0 <= j < pre.len() ==> !is_digit(#[trigger] pre[j]),
        contains(pre + decimal(n as nat) + seq!['.'] + post, name),
        !is_ws((pre + decimal(n as nat) + seq!['.'] + post).last()),
    ensures
        wpctl_id_of_line(pre + decimal(n as nat) + seq!['.'] + post, name) == Some(n),
{
    let d = decimal(n as nat);
    lemma_decimal_digits(n as nat);
    let core = d + seq!['.'] + post;
    let line = pre + core;
    assert(pre + decimal(n as nat) + seq!['.'] + post =~= line);
    assert(line[pre.len() as int] == d[0]);
    assert(is_digit(d[0]));
    // Leading whitespace lies within `pre`.
    lemma_lead_props(line, ws());
    let k0 = lead(line, ws());
    assert(k0 <= pre.len()) by {
        if k0 > pre.len() {
            assert((ws())(line[pre.len() as int]));
        }
    }
    let t1 = line.skip(k0 as int);
    assert(t1 =~= pre.skip(k0 as int) + core);
    assert(t1.last() == line.last());
    lemma_trail(t1, ws(), 0);
    assert(trim(line) =~= t1);
    // The non-digits before the number are dropped.
    let i = pre.len() - k0;
    assert forall|j: int| 0 <= j < i implies (not_digit())(#[trigger] t1[j]) by {
        assert(t1[j] == pre[j + k0]);
    }
    assert(t1[i] == d[0]);
    lemma_lead(t1, not_digit(), i);
    let t2 = trim_start_by(trim(line), not_digit());
    assert(t2 =~= core);
    // The first dot ends the number.
    assert(matches_at(t2, seq!['.'], d.len() as int)) by {
        assert(t2.subrange(d.len() as int, d.len() + 1int) =~= seq!['.']);
    }
    assert forall|j: int| 0 <= j < d.len() implies !matches_at(t2, seq!['.'], j) by {
        assert(t2[j] == d[j]);
        assert(is_digit(d[j]));
        if matches_at(t2, seq!['.'], j) {
            assert(t2.subrange(j, j + 1)[0] == t2[j]);
        }
    }
    lemma_find_some(t2, seq!['.'], d.len() as int);
    assert(t2.take(d.len() as int) =~= d);
    lemma_lead(d, ws(), 0);
    lemma_trail(d, ws(), 0);
    assert(is_digit(d[d.len() - 1]));
    assert(trim(d) =~= d);
    lemma_parse_decimal(n as nat, u32::MAX as nat);
}

/// The first line, in order, that names the node and carries an id decides
/// the result, whatever later lines hold.
pub proof fn lemma_wpctl_first_line_wins(ls: Seq<Seq<char>>, name: Seq<char>, i: int, v: u32)
    requires
        0 <= i < ls.len(),
        wpctl_id_of_line(ls[i], name) == Some(v),
        forall|j: int| 0 <= j < i ==> wpctl_id_of_line(#[trigger] ls[j], name) is None,
    ensures
        first_wpctl_id(ls, name) == Some(v),
    decreases i,
{
    if i > 0 {
        let t = ls.drop_first();
        assert(wpctl_id_of_line(ls[0], name) is None);
        assert forall|j: int| 0 <= j < i - 1 implies wpctl_id_of_line(#[trigger] t[j], name) is None by {
            assert(t[j] == ls[j + 1]);
        }
        assert(t[i - 1] == ls[i]);
        lemma_wpctl_first_line_wins(t, name, i - 1, v);
    }
}

/// No line that names the node with an id: no result.
pub proof fn lemma_wpctl_none(ls: Seq<Seq<char>>, name: Seq<char>)
    requires
        forall|j: int| 0 <= j < ls.len() ==> wpctl_id_of_line(#[trigger] ls[j], name) is None,
    ensures
        first_wpctl_id(ls, name) is None,
    decreases ls.len(),
{
    if ls.len() > 0 {
        let t = ls.drop_first();
        assert(wpctl_id_of_line(ls[0], name) is None);
        assert forall|j: int| 0 <= j < t.len() implies wpctl_id_of_line(#[trigger] t[j], name) is None by {
            assert(t[j] == ls[j + 1]);
        }
        lemma_wpctl_none(t, name);
    }
}

/// Parse wpctl status output to find a node ID by name.
pub fn find_wpctl_node_id(status_output: &str, node_name: &str) -> (r: Option<u32>)
    ensures
        r == first_wpctl_id(lines(status_output@), node_name@),
{
    let cs = chars_of(status_output);
    let lr = line_ranges(&cs);
    let ghost ls = lines(cs@);
    let name = chars_of(node_name);
    let mut k: usize = 0;
    proof {
        assert(ls.skip(0) =~= ls);
    }
    while k < lr.len()
        invariant
            ranges_in(cs@, lr@),
            range_views(cs@, lr@) == ls,
            ls == lines(status_output@),
            name@ == node_name@,
            0 <= k <= lr@.len(),
            first_wpctl_id(ls, node_name@) == first_wpctl_id(ls.skip(k as int), node_name@),
        decreases lr.len() - k,
    {
        let line = piece(&cs, &lr, k);
        proof {
            assert(ls.skip(k as int).drop_first() =~= ls.skip(k + 1));
            assert(ls.skip(k as int)[0] == line@);
        }
        match wpctl_id_of_line_exec(line, &name) {
            Some(id) => {
                return Some(id);
            },
            None => {},
        }
        k = k + 1;
    }
    assert(ls.skip(lr@.len() as int) =~= Seq::<Seq<char>>::empty());
    None
}

/// The default sink: the EQ's input while the EQ runs, else the null sink.
pub fn default_sink(eq_running: bool) -> (r: &'static str)
    ensures
        r@ == (if eq_running {
            EQ_SINK_NAME@
        } else {
            NULL_SINK_NAME@
        }),
{
    if eq_running {
        EQ_SINK_NAME
    } else {
        NULL_SINK_NAME
    }
}

fn text_with(a: &str, b: &str) -> (r: String)
    ensures
        r@ == a@ + b@,
{
    let mut v: Vec<char> = Vec::new();
    append_str(&mut v, a);
    append_str(&mut v, b);
    string_of(&v)
}

/// The `pactl` arguments that load the null sink.
pub fn null_sink_load_args() -> (r: Vec<String>)
    ensures
        r.deep_view() == seq![
            "load-module"@,
            "module-null-sink"@,
            "sink_name="@ + NULL_SINK_NAME@,
            "sink_properties=device.description="@ + NULL_SINK_DESC@,
        ],
{
    let mut r: Vec<String> = Vec::new();
    r.push(String::from_str("load-module"));
    r.push(String::from_str("module-null-sink"));
    r.push(text_with("sink_name=", NULL_SINK_NAME));
    r.push(text_with("sink_properties=device.description=", NULL_SINK_DESC));
    assert(r.deep_view() =~= seq![
        "load-module"@,
        "module-null-sink"@,
        "sink_name="@ + NULL_SINK_NAME@,
        "sink_properties=device.description="@ + NULL_SINK_DESC@,
    ]);
    r
}

/// What the setup loop does next.
#[derive(Debug, Clone, Copy, PartialEq, Eq, Structural)]
pub enum LoadStep {
    /// Wait this many seconds, then try loading again.
    Retry { delay_secs: u64 },
    /// Stop trying; check that the sink is listed.
    Verify,
}

/// Progress of creating the null sink with `pactl load-module`: tried at
/// most ten times, waiting 1, 2, 3, 4, 5, 5, ... seconds between attempts.
pub struct NullSinkSetup {
    attempt: u32,
    last_err: String,
    module_id: Option<u32>,
}

impl NullSinkSetup {
    /// The attempt under way (1-based).
    pub closed spec fn attempt_spec(&self) -> u32 {
        self.attempt
    }

    pub closed spec fn last_err_spec(&self) -> Seq<char> {
        self.last_err@
    }

    pub closed spec fn module_id_spec(&self) -> Option<u32> {
        self.module_id
    }

    pub open spec fn wf(&self) -> bool {
        1 <= self.attempt_spec() <= MAX_LOAD_ATTEMPTS
    }

    pub fn new() -> (r: Self)
        ensures
            r.wf(),
            r.attempt_spec() == 1,
            r.last_err_spec() == Seq::<char>::empty(),
            r.module_id_spec() is None,
    {
        NullSinkSetup { attempt: 1, last_err: String::new(), module_id: None }
    }

    /// The module id reported by the successful load, if it parsed.
    pub fn module_id(&self) -> (r: Option<u32>)
        ensures
            r == self.module_id_spec(),
    {
        self.module_id
    }

    /// The load succeeded with this standard output: remember the module id
    /// when it parses, and go verify.
    pub fn on_loaded(&mut self, stdout: &str) -> (step: LoadStep)
        requires
            old(self).wf(),
        ensures
            final(self).wf(),
            step == LoadStep::Verify,
            final(self).attempt_spec() == old(self).attempt_spec(),
            final(self).last_err_spec() == old(self).last_err_spec(),
            final(self).module_id_spec() == match parse_unsigned(
                trim(stdout@),
                u32::MAX as nat,
            ) {
                Some(v) => Some(v as u32),
                None => old(self).module_id_spec(),
            },
    {
        let cs = chars_of(stdout);
        let (a, b) = trim_bounds(&cs);
        match parse_u32(&cs[a..b]) {
            Some(id) => {
                self.module_id = Some(id);
            },
            None => {},
        }
        LoadStep::Verify
    }

    /// The load failed with this error output: remember it (trimmed), and
    /// retry after `min(attempt, 5)` seconds unless this was the last attempt.
    pub fn on_failed(&mut self, stderr: &str) -> (step: LoadStep)
        requires
            old(self).wf(),
        ensures
            final(self).wf(),
            final(self).last_err_spec() == trim(stderr@),
            final(self).module_id_spec() == old(self).module_id_spec(),
            old(self).attempt_spec() < MAX_LOAD_ATTEMPTS ==> step == (LoadStep::Retry {
                delay_secs: if old(self).attempt_spec() < 5 {
                    old(self).attempt_spec() as u64
                } else {
                    5
                },
            }) && final(self).attempt_spec() == old(self).attempt_spec() + 1,
            old(self).attempt_spec() == MAX_LOAD_ATTEMPTS ==> step == LoadStep::Verify
                && final(self).attempt_spec() == old(self).attempt_spec(),
    {
        let cs = chars_of(stderr);
        let (a, b) = trim_bounds(&cs);
        self.last_err = string_of(&cs[a..b]);
        if self.attempt < MAX_LOAD_ATTEMPTS {
            let delay: u64 = if self.attempt < 5 {
                self.attempt as u64
            } else {
                5
            };
            self.attempt = self.attempt + 1;
            LoadStep::Retry { delay_secs: delay }
        } else {
            LoadStep::Verify
        }
    }

    /// The outcome once the sink listing has been read: success when the
    /// null sink is listed, else the error naming the last load error.
    pub fn finish(&self, sink_listed: bool) -> (r: Result<(), String>)
        ensures
            r is Ok <==> sink_listed,
            r matches Err(e) ==> e@ == "Null sink "@ + NULL_SINK_NAME@ + " not found after 10 attempts. Last error: "@
                + self.last_err_spec(),
    {
        if sink_listed {
            Ok(())
        } else {
            let mut v: Vec<char> = Vec::new();
            append_str(&mut v, "Null sink ");
            append_str(&mut v, NULL_SINK_NAME);
            append_str(&mut v, " not found after 10 attempts. Last error: ");
            append_str(&mut v, self.last_err.as_str());
            Err(string_of(&v))
        }
    }
}

} // verus!
