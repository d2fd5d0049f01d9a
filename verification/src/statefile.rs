//! The textual form of the persistent state, and its parser.
//!
//! The file is written in a small canonical layout: an optional
//! `active_profile = "name"` line, a `[pinned_versions]` section header, and
//! one `"package" = "version"` line per pin, every string quoted and
//! escaped.  The parser is a little wider than the renderer: blank lines
//! may stand between the parts, pin keys may be bare (letters, digits,
//! underscore, hyphen), and the section may be absent when there are no
//! pins — so a file whose pins were written with bare keys and a blank
//! line before the section header loads the same state.  An empty file
//! stands for the default state.  Whatever loads or stores the file does
//! the locking and the byte I/O; the text itself is produced and consumed
//! here.

use vstd::prelude::*;

verus! {

use crate::dict::Dict;
use crate::dict::pairs_map;
use crate::error::Error;
use crate::escape::escape_seq;
use crate::escape::lemma_parse_consumed;
use crate::escape::lemma_parse_escaped;
use crate::escape::parse_string_body;
use crate::escape::quote;
use crate::escape::unquote;
use crate::state::State;
use crate::strutil::from_chars;
use crate::strutil::match_prefix;
use crate::strutil::push_char;
use crate::strutil::starts_with;
use crate::strutil::to_chars;
use vstd::string::StringExecFns;

/// A string in its quoted, escaped form.
pub open spec fn quoted(x: Seq<char>) -> Seq<char> {
    seq!['"'] + escape_seq(x) + seq!['"']
}

/// One pin line: quoted key, ` = `, quoted value, newline.
pub open spec fn render_pin_line(k: Seq<char>, v: Seq<char>) -> Seq<char> {
    quoted(k) + " = "@ + quoted(v) + "\n"@
}

/// The pin lines for the given pairs, in order.
pub open spec fn render_pins(ps: Seq<(String, String)>) -> Seq<char>
    decreases ps.len(),
{
    if ps.len() == 0 {
        Seq::empty()
    } else {
        render_pin_line(ps[0].0@, ps[0].1@) + render_pins(ps.drop_first())
    }
}

/// The whole rendered state file.
pub open spec fn spec_render_state(st: &State) -> Seq<char> {
    (match st.active_profile {
        Some(p) => "active_profile = "@ + quoted(p@) + "\n"@,
        None => Seq::<char>::empty(),
    }) + "[pinned_versions]\n"@ + render_pins(st.pinned_versions.pairs())
}

/// A quoted string at the front of `s`: the decoded text and the number of
/// characters consumed, both quotes included.
pub open spec fn parse_quoted(s: Seq<char>) -> Option<(Seq<char>, int)> {
    if s.len() > 0 && s[0] == '"' {
        match parse_string_body(s.skip(1)) {
            Some(p) => Some((p.0, p.1 + 1)),
            None => None,
        }
    } else {
        None
    }
}

/// A parsed quoted string consumes at least the two quotes and at most all
/// of `s`.
pub proof fn lemma_parse_quoted_consumed(s: Seq<char>)
    ensures
        parse_quoted(s) matches Some(p) ==> 2 <= p.1 <= s.len(),
{
    if s.len() > 0 && s[0] == '"' {
        lemma_parse_consumed(s.skip(1));
    }
}

/// `s` without its leading blank lines.
pub open spec fn skip_blank(s: Seq<char>) -> Seq<char>
    decreases s.len(),
{
    if s.len() > 0 && s[0] == '\n' {
        skip_blank(s.drop_first())
    } else {
        s
    }
}

proof fn lemma_skip_blank_at(s: Seq<char>, k: int)
    requires
        0 <= k <= s.len(),
        forall|m: int| 0 <= m < k ==> s[m] == '\n',
        k == s.len() || s[k] != '\n',
    ensures
        skip_blank(s) == s.skip(k),
    decreases k,
{
    if k == 0 {
        assert(s.skip(0) =~= s);
    } else {
        assert(s[0] == '\n');
        assert(s.drop_first() =~= s.skip(1));
        lemma_skip_blank_at(s.skip(1), k - 1);
        assert(s.skip(1).skip(k - 1) =~= s.skip(k));
    }
}

proof fn lemma_skip_blank_le(s: Seq<char>)
    ensures
        skip_blank(s).len() <= s.len(),
    decreases s.len(),
{
    if s.len() > 0 && s[0] == '\n' {
        lemma_skip_blank_le(s.drop_first());
    }
}

/// True for a character allowed in a bare key: letters, digits, underscore
/// and hyphen.
pub open spec fn is_bare_char(c: char) -> bool {
    ('a' <= c && c <= 'z') || ('A' <= c && c <= 'Z') || ('0' <= c && c <= '9') || c == '_' || c
        == '-'
}

/// The length of the leading bare-key run.
pub open spec fn bare_len(s: Seq<char>) -> int
    decreases s.len(),
{
    if s.len() > 0 && is_bare_char(s[0]) {
        1 + bare_len(s.drop_first())
    } else {
        0
    }
}

proof fn lemma_bare_len_bounds(s: Seq<char>)
    ensures
        0 <= bare_len(s) <= s.len(),
    decreases s.len(),
{
    if s.len() > 0 && is_bare_char(s[0]) {
        lemma_bare_len_bounds(s.drop_first());
    }
}

proof fn lemma_bare_len_at(s: Seq<char>, k: int)
    requires
        0 <= k <= s.len(),
        forall|m: int| 0 <= m < k ==> is_bare_char(#[trigger] s[m]),
        k == s.len() || !is_bare_char(s[k]),
    ensures
        bare_len(s) == k,
    decreases k,
{
    if k > 0 {
        assert(s.drop_first() =~= s.skip(1));
        lemma_bare_len_at(s.skip(1), k - 1);
    }
}

/// A key at the front of `s`: a quoted string, or a non-empty bare run.
pub open spec fn parse_key(s: Seq<char>) -> Option<(Seq<char>, int)> {
    if s.len() > 0 && s[0] == '"' {
        parse_quoted(s)
    } else if bare_len(s) > 0 {
        Some((s.take(bare_len(s)), bare_len(s)))
    } else {
        None
    }
}

/// A parsed key consumes at least one character and at most all of `s`.
pub proof fn lemma_parse_key_consumed(s: Seq<char>)
    ensures
        parse_key(s) matches Some(p) ==> 1 <= p.1 <= s.len(),
{
    lemma_parse_quoted_consumed(s);
    lemma_bare_len_bounds(s);
}

/// The pin lines in `s`, parsed to the end of the input.
pub open spec fn parse_pins_seq(s: Seq<char>) -> Option<Seq<(Seq<char>, Seq<char>)>>
    decreases s.len(),
    via parse_pins_seq_decreases
{
    let s0 = skip_blank(s);
    if s0.len() == 0 {
        Some(Seq::empty())
    } else {
        match parse_key(s0) {
            Some(k) => {
                let s1 = s0.skip(k.1);
                if starts_with(s1, " = "@) {
                    let s2 = s1.skip(3);
                    match parse_quoted(s2) {
                        Some(v) => {
                            let s3 = s2.skip(v.1);
                            if s3.len() > 0 && s3[0] == '\n' {
                                match parse_pins_seq(s3.skip(1)) {
                                    Some(rest) => Some(seq![(k.0, v.0)] + rest),
                                    None => None,
                                }
                            } else {
                                None
                            }
                        },
                        None => None,
                    }
                } else {
                    None
                }
            },
            None => None,
        }
    }
}

#[via_fn]
proof fn parse_pins_seq_decreases(s: Seq<char>) {
    reveal_strlit(" = ");
    lemma_skip_blank_le(s);
    let s0 = skip_blank(s);
    lemma_parse_key_consumed(s0);
    if s0.len() > 0 {
        match parse_key(s0) {
            Some(k) => {
                let s1 = s0.skip(k.1);
                if starts_with(s1, " = "@) {
                    let s2 = s1.skip(3);
                    lemma_parse_quoted_consumed(s2);
                    match parse_quoted(s2) {
                        Some(v) => {
                            let s3 = s2.skip(v.1);
                            if s3.len() > 0 && s3[0] == '\n' {
                                assert(s3.skip(1).len() < s.len());
                            }
                        },
                        None => {},
                    }
                }
            },
            None => {},
        }
    }
}

/// The parsed state file: the active profile and the pin pairs in file
/// order.  `None` when the text is not a state file.
pub open spec fn parse_state_seq(s: Seq<char>) -> Option<
    (Option<Seq<char>>, Seq<(Seq<char>, Seq<char>)>),
> {
    let s0 = skip_blank(s);
    if s0.len() == 0 {
        Some((None, Seq::empty()))
    } else if starts_with(s0, "active_profile = "@) {
        let r1 = s0.skip("active_profile = "@.len() as int);
        match parse_quoted(r1) {
            Some(p) => {
                let r2 = r1.skip(p.1);
                if r2.len() > 0 && r2[0] == '\n' {
                    let rest = skip_blank(r2.skip(1));
                    if rest.len() == 0 {
                        Some((Some(p.0), Seq::empty()))
                    } else {
                        match parse_section(rest) {
                            Some(ps) => Some((Some(p.0), ps)),
                            None => None,
                        }
                    }
                } else {
                    None
                }
            },
            None => None,
        }
    } else {
        match parse_section(s0) {
            Some(ps) => Some((None, ps)),
            None => None,
        }
    }
}

/// The section header and the pin lines after it.
pub open spec fn parse_section(s: Seq<char>) -> Option<Seq<(Seq<char>, Seq<char>)>> {
    if starts_with(s, "[pinned_versions]\n"@) {
        parse_pins_seq(s.skip("[pinned_versions]\n"@.len() as int))
    } else {
        None
    }
}

/// The abstract pairs of a pair list.
pub open spec fn pair_views(ps: Seq<(String, String)>) -> Seq<(Seq<char>, Seq<char>)> {
    ps.map_values(|p: (String, String)| (p.0@, p.1@))
}

/// The map described by parsed pairs, later pairs winning.
pub open spec fn parsed_map(ps: Seq<(Seq<char>, Seq<char>)>) -> Map<Seq<char>, Seq<char>>
    decreases ps.len(),
{
    if ps.len() == 0 {
        Map::empty()
    } else {
        parsed_map(ps.drop_last()).insert(ps.last().0, ps.last().1)
    }
}

/// The rendered state file for `st`.
pub fn render_state(st: &State) -> (r: String)
    ensures
        r@ == spec_render_state(st),
{
    let mut out = String::new();
    match &st.active_profile {
        Some(p) => {
            out.append("active_profile = ");
            let q = quote(p);
            out.append(q.as_str());
            push_char(&mut out, '\n');
        },
        None => {},
    }
    out.append("[pinned_versions]\n");
    let ghost pins_done = out@;
    let n = st.pinned_versions.len();
    let mut i: usize = 0;
    proof {
        assert(st.pinned_versions.pairs().subrange(0, 0) =~= Seq::<(String, String)>::empty());
        assert(out@ =~= pins_done + render_pins(st.pinned_versions.pairs().subrange(0, 0)));
    }
    while i < n
        invariant
            i <= n,
            n == st.pinned_versions.pairs().len(),
            out@ == pins_done + render_pins(st.pinned_versions.pairs().subrange(0, i as int)),
        decreases n - i,
    {
        let e = st.pinned_versions.entry_at(i);
        let qk = quote(&e.0);
        let qv = quote(&e.1);
        out.append(qk.as_str());
        out.append(" = ");
        out.append(qv.as_str());
        push_char(&mut out, '\n');
        proof {
            reveal_strlit("\n");
            lemma_render_pins_push(st.pinned_versions.pairs().subrange(0, i as int), *e);
            assert(st.pinned_versions.pairs().subrange(0, i as int).push(*e)
                =~= st.pinned_versions.pairs().subrange(0, i + 1 as int));
            assert(out@ =~= pins_done + render_pins(
                st.pinned_versions.pairs().subrange(0, i + 1 as int),
            ));
        }
        i = i + 1;
    }
    proof {
        reveal_strlit("\n");
        assert(st.pinned_versions.pairs().subrange(0, n as int) =~= st.pinned_versions.pairs());
        assert(out@ =~= spec_render_state(st));
    }
    out
}

/// Rendering distributes over appending one pair.
proof fn lemma_render_pins_push(ps: Seq<(String, String)>, p: (String, String))
    ensures
        render_pins(ps.push(p)) == render_pins(ps) + render_pin_line(p.0@, p.1@),
    decreases ps.len(),
{
    if ps.len() == 0 {
        assert(ps.push(p).drop_first() =~= Seq::<(String, String)>::empty());
        assert(ps.push(p)[0] == p);
        assert(render_pins(Seq::<(String, String)>::empty()) == Seq::<char>::empty());
        assert(render_pins(ps.push(p)) =~= render_pin_line(p.0@, p.1@) + Seq::<char>::empty());
        assert(render_pins(ps.push(p)) =~= render_pin_line(p.0@, p.1@));
        assert(render_pins(ps) + render_pin_line(p.0@, p.1@) =~= render_pin_line(p.0@, p.1@));
    } else {
        assert(ps.push(p).drop_first() =~= ps.drop_first().push(p));
        assert(ps.push(p)[0] == ps[0]);
        lemma_render_pins_push(ps.drop_first(), p);
        assert(render_pins(ps.push(p)) =~= render_pins(ps) + render_pin_line(p.0@, p.1@));
    }
}

/// The first position at or after `i` that does not hold a newline.
fn skip_blank_at(v: &Vec<char>, i: usize) -> (r: usize)
    requires
        i <= v@.len(),
    ensures
        i <= r <= v@.len(),
        skip_blank(v@.skip(i as int)) == v@.skip(r as int),
        r < v@.len() ==> v@[r as int] != '\n',
{
    let mut j: usize = i;
    while j < v.len() && v[j] == '\n'
        invariant
            i <= j <= v@.len(),
            forall|m: int| i <= m < j ==> v@[m] == '\n',
        decreases v@.len() - j,
    {
        j = j + 1;
    }
    proof {
        lemma_skip_blank_at(v@.skip(i as int), (j - i) as int);
        assert(v@.skip(i as int).skip((j - i) as int) =~= v@.skip(j as int));
    }
    j
}

/// Whether `c` may stand in a bare key.
fn bare_char(c: char) -> (r: bool)
    ensures
        r == is_bare_char(c),
{
    let u = c as u32;
    (97 <= u && u <= 122) || (65 <= u && u <= 90) || (48 <= u && u <= 57) || u == 95 || u == 45
}

/// The pin lines of `v` from position `i`, parsed to the end.
#[verifier::rlimit(100)]
#[verifier::spinoff_prover]
fn parse_pins(v: &Vec<char>, i: usize) -> (r: Option<Vec<(String, String)>>)
    requires
        i <= v@.len(),
    ensures
        r is Some <==> parse_pins_seq(v@.skip(i as int)) is Some,
        r matches Some(ps) ==> parse_pins_seq(v@.skip(i as int)) == Some(pair_views(ps@)),
    decreases v@.len() - i,
{
    let ghost s = v@.skip(i as int);
    let j = skip_blank_at(v, i);
    let ghost s0 = v@.skip(j as int);
    if j == v.len() {
        proof {
            assert(pair_views(Seq::<(String, String)>::empty()) =~= Seq::<
                (Seq<char>, Seq<char>),
            >::empty());
        }
        return Some(Vec::new());
    }
    let key: String;
    let kc: usize;
    if v[j] == '"' {
        proof {
            assert(s0.skip(1) =~= v@.skip(j + 1 as int));
            lemma_parse_quoted_consumed(s0);
        }
        match unquote(v, j) {
            Some(q) => {
                key = q.0;
                kc = q.1;
            },
            None => {
                return None;
            },
        }
    } else {
        let mut k: usize = j;
        while k < v.len() && bare_char(v[k])
            invariant
                j <= k <= v@.len(),
                forall|m: int| j <= m < k ==> is_bare_char(#[trigger] v@[m]),
            decreases v@.len() - k,
        {
            k = k + 1;
        }
        proof {
            lemma_bare_len_at(s0, (k - j) as int);
        }
        if k == j {
            return None;
        }
        let mut key_chars: Vec<char> = Vec::new();
        let mut m: usize = j;
        while m < k
            invariant
                j <= m <= k <= v@.len(),
                key_chars@ == v@.subrange(j as int, m as int),
            decreases k - m,
        {
            key_chars.push(v[m]);
            m = m + 1;
            proof {
                assert(key_chars@ =~= v@.subrange(j as int, m as int));
            }
        }
        key = from_chars(&key_chars);
        kc = k - j;
        proof {
            assert(v@.subrange(j as int, k as int) =~= s0.take(kc as int));
        }
    }
    proof {
        lemma_parse_key_consumed(s0);
        assert(s0.skip(kc as int) =~= v@.skip((j + kc) as int));
    }
    let eq3 = to_chars(" = ");
    proof {
        reveal_strlit(" = ");
    }
    if !match_prefix(v, j + kc, &eq3) {
        return None;
    }
    proof {
        assert(s0.skip(kc as int).skip(3) =~= v@.skip((j + kc + 3) as int));
        assert(((j + kc + 3) as int) < v@.len() ==> v@.skip((j + kc + 3) as int).skip(1) =~= v@.skip(
            (j + kc + 4) as int,
        ));
        lemma_parse_quoted_consumed(v@.skip((j + kc + 3) as int));
    }
    let (val, vc) = match unquote(v, j + kc + 3) {
        Some(q) => q,
        None => {
            return None;
        },
    };
    proof {
        assert(s0.skip(kc as int).skip(3).skip(vc as int) =~= v@.skip((j + kc + 3 + vc) as int));
    }
    let after = j + kc + 3 + vc;
    if after >= v.len() || v[after] != '\n' {
        return None;
    }
    proof {
        assert(v@.skip(after as int).skip(1) =~= v@.skip((after + 1) as int));
    }
    match parse_pins(v, after + 1) {
        Some(mut rest) => {
            rest.insert(0, (key, val));
            proof {
                assert(pair_views(rest@) =~= seq![(rest@[0].0@, rest@[0].1@)] + pair_views(
                    rest@.skip(1),
                ));
                assert(rest@.skip(1) =~= rest@.subrange(1, rest@.len() as int));
            }
            Some(rest)
        },
        None => None,
    }
}

/// The state written in `s`.  An empty (or all-blank) text yields the
/// default state; a malformed text is a configuration error.
#[verifier::rlimit(100)]
#[verifier::spinoff_prover]
pub fn parse_state(s: &String) -> (r: Result<State, Error>)
    ensures
        r is Ok <==> parse_state_seq(s@) is Some,
        r matches Ok(st) ==> {
            &&& st.wf()
            &&& parse_state_seq(s@) matches Some(p) && st@.active_profile == p.0
                && st@.pinned_versions == parsed_map(p.1)
        },
{
    let chars = to_chars(s.as_str());
    proof {
        assert(chars@.skip(0) =~= chars@);
    }
    let start = skip_blank_at(&chars, 0);
    let ghost s0 = chars@.skip(start as int);
    if start == chars.len() {
        let st = State::default();
        proof {
            assert(parsed_map(Seq::<(Seq<char>, Seq<char>)>::empty()) =~= Map::<
                Seq<char>,
                Seq<char>,
            >::empty());
        }
        return Ok(st);
    }
    let hd = to_chars("active_profile = ");
    proof {
        reveal_strlit("active_profile = ");
    }
    let mut profile: Option<String> = None;
    let mut i: usize = start;
    if match_prefix(&chars, start, &hd) {
        let base = start + hd.len();
        let ghost r1 = s0.skip("active_profile = "@.len() as int);
        proof {
            assert(chars@.skip(base as int) =~= r1);
            assert((base as int) < chars@.len() ==> r1.skip(1) =~= chars@.skip(
                (base + 1) as int,
            ));
            lemma_parse_quoted_consumed(r1);
        }
        let (p, pc) = match unquote(&chars, base) {
            Some(q) => q,
            None => {
                return Err(Error::InvalidConfig(String::from_str("malformed state file")));
            },
        };
        proof {
            assert(r1.skip(pc as int) =~= chars@.skip((base + pc) as int));
        }
        let after = base + pc;
        if after >= chars.len() || chars[after] != '\n' {
            return Err(Error::InvalidConfig(String::from_str("malformed state file")));
        }
        proof {
            assert(chars@.skip(after as int).skip(1) =~= chars@.skip((after + 1) as int));
        }
        let i2 = skip_blank_at(&chars, after + 1);
        profile = Some(p);
        if i2 == chars.len() {
            // A profile line with nothing after it: no pins.
            proof {
                assert(parsed_map(Seq::<(Seq<char>, Seq<char>)>::empty()) =~= Map::<
                    Seq<char>,
                    Seq<char>,
                >::empty());
            }
            return Ok(State { active_profile: profile, pinned_versions: Dict::new() });
        }
        i = i2;
    }
    let ghost tail = chars@.skip(i as int);
    proof {
        match parse_section(tail) {
            Some(ps) => {
                assert(parse_state_seq(s@) == Some((profile.deep_view(), ps)));
            },
            None => {
                assert(parse_state_seq(s@) is None);
            },
        }
    }
    let sec = to_chars("[pinned_versions]\n");
    proof {
        reveal_strlit("[pinned_versions]\n");
    }
    if !match_prefix(&chars, i, &sec) {
        return Err(Error::InvalidConfig(String::from_str("malformed state file")));
    }
    let at_pins = i + sec.len();
    proof {
        assert(tail.skip("[pinned_versions]\n"@.len() as int) =~= chars@.skip(at_pins as int));
    }
    let pairs = match parse_pins(&chars, at_pins) {
        Some(ps) => ps,
        None => {
            return Err(Error::InvalidConfig(String::from_str("malformed state file")));
        },
    };
    let mut pins: Dict<String> = Dict::new();
    let n = pairs.len();
    let mut j: usize = 0;
    proof {
        assert(pair_views(pairs@).subrange(0, 0) =~= Seq::<(Seq<char>, Seq<char>)>::empty());
        assert(pins@ =~= parsed_map(pair_views(pairs@).subrange(0, 0)));
    }
    while j < n
        invariant
            j <= n,
            n == pairs@.len(),
            pair_views(pairs@).len() == n,
            pins.wf(),
            pins@ == parsed_map(pair_views(pairs@).subrange(0, j as int)),
        decreases n - j,
    {
        let k = pairs[j].0.clone();
        let v = pairs[j].1.clone();
        pins.insert(k, v);
        proof {
            assert(pair_views(pairs@).subrange(0, j + 1 as int).drop_last() =~= pair_views(
                pairs@,
            ).subrange(0, j as int));
            assert(pair_views(pairs@).subrange(0, j + 1 as int).last() == (
                pairs@[j as int].0@,
                pairs@[j as int].1@,
            ));
            assert(pins@ =~= parsed_map(pair_views(pairs@).subrange(0, j + 1 as int)));
        }
        j = j + 1;
    }
    proof {
        assert(pair_views(pairs@).subrange(0, n as int) =~= pair_views(pairs@));
    }
    Ok(State { active_profile: profile, pinned_versions: pins })
}

/// A rendered state parses back to the same profile and the same pins, in
/// the same order.
pub proof fn lemma_state_round_trip(st: &State)
    requires
        st.wf(),
    ensures
        parse_state_seq(spec_render_state(st)) == Some(
            (st@.active_profile, pair_views(st.pinned_versions.pairs())),
        ),
        parsed_map(pair_views(st.pinned_versions.pairs())) == st@.pinned_versions,
{
    reveal_strlit("active_profile = ");
    reveal_strlit("[pinned_versions]\n");
    reveal_strlit(" = ");
    reveal_strlit("\n");
    let body = "[pinned_versions]\n"@ + render_pins(st.pinned_versions.pairs());
    let s = spec_render_state(st);
    lemma_parse_pins_of_render(st.pinned_versions.pairs());
    assert(starts_with(body, "[pinned_versions]\n"@)) by {
        assert(body.subrange(0, 18) =~= "[pinned_versions]\n"@);
    }
    assert(body.skip(18) =~= render_pins(st.pinned_versions.pairs()));
    match st.active_profile {
        Some(p) => {
            let pref = "active_profile = "@;
            assert(s[0] == 'a');
            lemma_skip_blank_at(s, 0);
            assert(s.skip(0) =~= s);
            assert(s.subrange(0, 17) =~= pref);
            assert(s.len() >= 17);
            let r1 = s.skip(17);
            assert(r1 =~= quoted(p@) + "\n"@ + body);
            assert(r1[0] == '"');
            assert(r1.skip(1) =~= escape_seq(p@) + seq!['"'] + ("\n"@ + body));
            lemma_parse_escaped(p@, "\n"@ + body);
            let pc = escape_seq(p@).len() as int + 2;
            let r2 = r1.skip(pc);
            assert(r2 =~= "\n"@ + body);
            assert(r2[0] == '\n');
            assert(r2.skip(1) =~= body);
            assert(body[0] == '[');
            lemma_skip_blank_at(body, 0);
            assert(body.skip(0) =~= body);
            assert(body.len() > 0);
        },
        None => {
            assert(s =~= body);
            assert(s[0] == '[');
            lemma_skip_blank_at(s, 0);
            assert(s.skip(0) =~= s);
            if starts_with(s, "active_profile = "@) {
                assert(s[0] == 'a');
            }
        },
    }
    lemma_parsed_map_is_pairs_map(st.pinned_versions.pairs());
}

/// Parsing the rendered pin lines gives back the pairs.
#[verifier::rlimit(100)]
#[verifier::spinoff_prover]
proof fn lemma_parse_pins_of_render(ps: Seq<(String, String)>)
    ensures
        parse_pins_seq(render_pins(ps)) == Some(pair_views(ps)),
    decreases ps.len(),
{
    reveal_strlit(" = ");
    reveal_strlit("\n");
    if ps.len() == 0 {
        assert(render_pins(ps) =~= Seq::<char>::empty());
        assert(pair_views(ps) =~= Seq::<(Seq<char>, Seq<char>)>::empty());
    } else {
        let k = ps[0].0@;
        let v = ps[0].1@;
        let rest = render_pins(ps.drop_first());
        let s = render_pins(ps);
        assert(s =~= quoted(k) + " = "@ + quoted(v) + "\n"@ + rest);
        assert(s.len() > 0 && s[0] == '"');
        lemma_skip_blank_at(s, 0);
        assert(s.skip(0) =~= s);
        assert(s.skip(1) =~= escape_seq(k) + seq!['"'] + (" = "@ + quoted(v) + "\n"@ + rest));
        lemma_parse_escaped(k, " = "@ + quoted(v) + "\n"@ + rest);
        let kc = escape_seq(k).len() as int + 2;
        let s1 = s.skip(kc);
        assert(s1 =~= " = "@ + quoted(v) + "\n"@ + rest);
        assert(starts_with(s1, " = "@)) by {
            assert(s1.subrange(0, 3) =~= " = "@);
        }
        let s2 = s1.skip(3);
        assert(s2 =~= quoted(v) + "\n"@ + rest);
        assert(s2[0] == '"');
        assert(s2.skip(1) =~= escape_seq(v) + seq!['"'] + ("\n"@ + rest));
        lemma_parse_escaped(v, "\n"@ + rest);
        let vc = escape_seq(v).len() as int + 2;
        let s3 = s2.skip(vc);
        assert(s3 =~= "\n"@ + rest);
        assert(s3.len() > 0 && s3[0] == '\n');
        assert(s3.skip(1) =~= rest);
        lemma_parse_pins_of_render(ps.drop_first());
        assert(pair_views(ps) =~= seq![(k, v)] + pair_views(ps.drop_first()));
    }
}

/// On distinct keys, the parsed map is the pairs map.
proof fn lemma_parsed_map_is_pairs_map(ps: Seq<(String, String)>)
    ensures
        parsed_map(pair_views(ps)) == pairs_map(ps),
    decreases ps.len(),
{
    if ps.len() > 0 {
        lemma_parsed_map_is_pairs_map(ps.drop_last());
        assert(pair_views(ps).drop_last() =~= pair_views(ps.drop_last()));
        assert(pair_views(ps).last() == (ps.last().0@, ps.last().1@));
    }
}

} // verus!
