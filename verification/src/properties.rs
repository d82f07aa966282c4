//! The `server.properties` text format: reading it as an ordered list of
//! key-value pairs and writing such a list back, so that what is written
//! is read back unchanged.
use vstd::prelude::*;
use crate::text::{
    chars_of, find_char_from, index_of, is_ws, lemma_index_of, lemma_index_of_concat,
    lemma_index_of_unique, lines, push_char, split_once, string_of_range, strip_cr, trim, trim_range,
};

verus! {

/// The pairs of a list of `String` pairs, as character sequences.
pub open spec fn pair_views(p: Seq<(String, String)>) -> Seq<(Seq<char>, Seq<char>)> {
    p.map_values(|x: (String, String)| (x.0@, x.1@))
}

/// What one line of `server.properties` holds: nothing for a blank line or
/// a comment, else the trimmed line split at its first `=` (nothing where
/// there is no `=`).
pub open spec fn parse_property_line(line: Seq<char>) -> Option<(Seq<char>, Seq<char>)> {
    let t = trim(line);
    if t.len() == 0 || t[0] == '#' {
        None
    } else {
        split_once(t, '=')
    }
}

/// The pairs that a sequence of lines holds, in order.
pub open spec fn parse_property_lines(ls: Seq<Seq<char>>) -> Seq<(Seq<char>, Seq<char>)>
    decreases ls.len(),
{
    if ls.len() == 0 {
        seq![]
    } else {
        let rest = parse_property_lines(ls.drop_first());
        match parse_property_line(ls[0]) {
            Some(p) => seq![p] + rest,
            None => rest,
        }
    }
}

/// The pairs that a `server.properties` text holds, in order.
pub open spec fn parse_properties(text: Seq<char>) -> Seq<(Seq<char>, Seq<char>)> {
    parse_property_lines(lines(text))
}

/// The comment line that heads a `server.properties` written by the launcher.
pub open spec fn properties_header() -> Seq<char> {
    "# server.properties (edited in ChocoModrinth)"@
}

/// One written entry: `key=value` and a line feed.
pub open spec fn render_entry(k: Seq<char>, v: Seq<char>) -> Seq<char> {
    k + seq!['='] + v + seq!['\n']
}

pub open spec fn render_entries(props: Seq<(Seq<char>, Seq<char>)>) -> Seq<char>
    decreases props.len(),
{
    if props.len() == 0 {
        seq![]
    } else {
        render_entry(props[0].0, props[0].1) + render_entries(props.drop_first())
    }
}

/// The text written for a list of pairs: the header line, then one
/// `key=value` line per pair, in order.
pub open spec fn render_properties(props: Seq<(Seq<char>, Seq<char>)>) -> Seq<char> {
    properties_header() + seq!['\n'] + render_entries(props)
}

/// A pair that reads back as itself once written: neither part holds a
/// line feed, the key holds no `=`, and the written line has no leading or
/// trailing whitespace and does not start with `#`.
pub open spec fn round_trips(k: Seq<char>, v: Seq<char>) -> bool {
    &&& !k.contains('\n')
    &&& !v.contains('\n')
    &&& !k.contains('=')
    &&& k.len() > 0 ==> !is_ws(k[0]) && k[0] != '#'
    &&& v.len() > 0 ==> !is_ws(v.last())
}

proof fn lemma_render_entries_push(props: Seq<(Seq<char>, Seq<char>)>, k: Seq<char>, v: Seq<char>)
    ensures
        render_entries(props.push((k, v))) == render_entries(props) + render_entry(k, v),
    decreases props.len(),
{
    if props.len() == 0 {
        assert(props.push((k, v)).drop_first() =~= props);
        assert(render_entries(props) =~= Seq::<char>::empty());
        assert(render_entries(props.push((k, v))) =~= render_entry(k, v) + render_entries(props));
    } else {
        assert(props.push((k, v)).drop_first() =~= props.drop_first().push((k, v)));
        lemma_render_entries_push(props.drop_first(), k, v);
        assert(render_entries(props.push((k, v))) =~= render_entries(props) + render_entry(k, v));
    }
}

/// A text without leading or trailing whitespace is its own trim.
pub proof fn lemma_trim_noop(s: Seq<char>)
    requires
        s.len() > 0,
        !is_ws(s[0]),
        !is_ws(s.last()),
    ensures
        trim(s) == s,
{
}

/// The lines of `a`, a line feed, then `b`, where `a` holds no line feed.
pub proof fn lemma_lines_cons(a: Seq<char>, b: Seq<char>)
    requires
        !a.contains('\n'),
    ensures
        lines(a + seq!['\n'] + b) == seq![strip_cr(a)] + lines(b),
{
    let s = a + seq!['\n'] + b;
    assert(s =~= a + (seq!['\n'] + b));
    lemma_index_of_concat(a, seq!['\n'] + b, '\n');
    assert(index_of(seq!['\n'] + b, '\n') == 0);
    assert(s.take(a.len() as int) =~= a);
    assert(s.skip(a.len() as int + 1) =~= b);
}

pub proof fn lemma_entries_round_trip(props: Seq<(Seq<char>, Seq<char>)>)
    requires
        forall|i: int| 0 <= i < props.len() ==> round_trips(#[trigger] props[i].0, props[i].1),
    ensures
        parse_property_lines(lines(render_entries(props))) == props,
    decreases props.len(),
{
    if props.len() == 0 {
        assert(lines(seq![]) =~= Seq::<Seq<char>>::empty());
    } else {
        let k = props[0].0;
        let v = props[0].1;
        assert(round_trips(k, v));
        let line = k + seq!['='] + v;
        assert(!line.contains('\n')) by {
            if line.contains('\n') {
                let j = choose|j: int| 0 <= j < line.len() && line[j] == '\n';
                if j < k.len() {
                    assert(k[j] == '\n');
                } else if j > k.len() {
                    assert(v[j - k.len() - 1] == '\n');
                }
            }
        }
        let rest = props.drop_first();
        assert forall|i: int| 0 <= i < rest.len() implies round_trips(
            #[trigger] rest[i].0,
            rest[i].1,
        ) by {
            assert(rest[i] == props[i + 1]);
        }
        lemma_entries_round_trip(rest);
        assert(render_entries(props) =~= line + seq!['\n'] + render_entries(rest));
        lemma_lines_cons(line, render_entries(rest));
        assert(line.last() != '\r');
        assert(strip_cr(line) == line);
        assert(line[0] == if k.len() > 0 {
            k[0]
        } else {
            '='
        });
        lemma_trim_noop(line);
        lemma_index_of_unique(line, '=', k.len() as int);
        assert(line.take(k.len() as int) =~= k);
        assert(line.skip(k.len() as int + 1) =~= v);
        assert(parse_property_line(line) == Some((k, v)));
        let ls = seq![line] + lines(render_entries(rest));
        assert(ls.drop_first() =~= lines(render_entries(rest)));
        assert(parse_property_lines(ls) =~= seq![(k, v)] + rest);
        assert(seq![(k, v)] + rest =~= props);
    }
}

/// What a written `server.properties` gives back when read: the same pairs,
/// in the same order, for every list of pairs that `round_trips` admits.
pub proof fn law_properties_round_trip(props: Seq<(Seq<char>, Seq<char>)>)
    requires
        forall|i: int| 0 <= i < props.len() ==> round_trips(#[trigger] props[i].0, props[i].1),
    ensures
        parse_properties(render_properties(props)) == props,
{
    let h = properties_header();
    reveal_strlit("# server.properties (edited in ChocoModrinth)");
    assert(!h.contains('\n')) by {
        if h.contains('\n') {
            let j = choose|j: int| 0 <= j < h.len() && h[j] == '\n';
            assert(h[j] != '\n');
        }
    }
    lemma_lines_cons(h, render_entries(props));
    assert(strip_cr(h) == h);
    lemma_trim_noop(h);
    assert(parse_property_line(h) is None);
    lemma_entries_round_trip(props);
    let ls = seq![h] + lines(render_entries(props));
    assert(ls.drop_first() =~= lines(render_entries(props)));
}

/// The position of the first `c` in `v[from..to]`, counted from the start
/// of `v`, or `to` where there is none.
fn find_char_between(v: &Vec<char>, from: usize, to: usize, c: char) -> (i: usize)
    requires
        from <= to <= v.len(),
    ensures
        i == from + index_of(v@.subrange(from as int, to as int), c),
        from <= i <= to,
{
    let mut i = from;
    while i < to && v[i] != c
        invariant
            from <= i <= to <= v.len(),
            forall|j: int| from <= j < i ==> v@[j] != c,
        decreases to - i,
    {
        i = i + 1;
    }
    proof {
        let t = v@.subrange(from as int, to as int);
        assert forall|j: int| 0 <= j < i - from implies t[j] != c by {
            assert(t[j] == v@[j + from]);
        }
        if i < to {
            assert(t[i - from] == v@[i as int]);
        }
        lemma_index_of_unique(t, c, i - from);
    }
    i
}

/// Reads `server.properties`: one pair per line that is neither blank nor a
/// comment and holds an `=`, split at its first `=`, after the line is
/// trimmed; lines without `=` are passed over.
pub fn parse_server_properties(content: &str) -> (props: Vec<(String, String)>)
    ensures
        pair_views(props@) == parse_properties(content@),
{
    let v = chars_of(content);
    let n = v.len();
    let mut props: Vec<(String, String)> = Vec::new();
    let mut pos: usize = 0;
    assert(v@.skip(0) =~= v@);
    assert(pair_views(props@) =~= Seq::<(Seq<char>, Seq<char>)>::empty());
    assert(pair_views(props@) + parse_property_lines(lines(v@.skip(0))) =~= parse_properties(
        content@,
    ));
    while pos < n
        invariant
            n == v.len(),
            v@ == content@,
            pos <= n,
            pair_views(props@) + parse_property_lines(lines(v@.skip(pos as int)))
                == parse_properties(content@),
        decreases n - pos,
    {
        let ghost s = v@.skip(pos as int);
        let nl = find_char_from(&v, pos, '\n');
        let mut end = nl;
        if nl < n && nl > pos && v[nl - 1] == '\r' {
            end = nl - 1;
        }
        let ghost line = v@.subrange(pos as int, end as int);
        proof {
            lemma_index_of(s, '\n');
            if nl < n {
                assert(s.take(nl - pos) =~= v@.subrange(pos as int, nl as int));
                assert(s.skip(nl - pos + 1) =~= v@.skip(nl + 1));
                if nl > pos && v@[nl - 1] == '\r' {
                    assert(strip_cr(s.take(nl - pos)) =~= line);
                } else {
                    assert(strip_cr(s.take(nl - pos)) =~= line);
                }
                assert(lines(s) == seq![line] + lines(v@.skip(nl + 1)));
            } else {
                assert(s =~= line);
                assert(lines(s) == seq![line]);
            }
        }
        let (a, b) = trim_range(&v, pos, end);
        let ghost t = v@.subrange(a as int, b as int);
        let ghost before = pair_views(props@);
        if a < b && v[a] != '#' {
            let eq = find_char_between(&v, a, b, '=');
            if eq < b {
                let key = string_of_range(&v, a, eq);
                let value = string_of_range(&v, eq + 1, b);
                proof {
                    lemma_index_of(t, '=');
                    assert(t.take(eq - a) =~= v@.subrange(a as int, eq as int));
                    assert(t.skip(eq - a + 1) =~= v@.subrange(eq + 1, b as int));
                }
                props.push((key, value));
                assert(pair_views(props@) =~= before.push((key@, value@)));
            }
        }
        proof {
            let rest = if nl < n {
                v@.skip(nl + 1)
            } else {
                Seq::<char>::empty()
            };
            let ls = seq![line] + lines(rest);
            assert(ls.drop_first() =~= lines(rest));
            assert(ls[0] == line);
            if nl >= n {
                assert(lines(rest) =~= Seq::<Seq<char>>::empty());
                assert(v@.skip(n as int) =~= rest);
            }
            assert(pair_views(props@) + parse_property_lines(lines(rest)) =~= before
                + parse_property_lines(ls));
        }
        if nl < n {
            pos = nl + 1;
        } else {
            pos = n;
        }
    }
    proof {
        assert(v@.skip(n as int) =~= Seq::<char>::empty());
        assert(lines(Seq::<char>::empty()) =~= Seq::<Seq<char>>::empty());
        assert(pair_views(props@) + Seq::<(Seq<char>, Seq<char>)>::empty() =~= pair_views(props@));
    }
    props
}

/// Appends one `key=value` line per pair to `text`, in order.
pub fn append_entries(text: &mut String, props: &Vec<(String, String)>)
    ensures
        final(text)@ == old(text)@ + render_entries(pair_views(props@)),
{
    let ghost start = text@;
    let mut i: usize = 0;
    assert(pair_views(props@).take(0) =~= Seq::<(Seq<char>, Seq<char>)>::empty());
    assert(start + render_entries(pair_views(props@).take(0)) =~= start);
    while i < props.len()
        invariant
            i <= props.len(),
            text@ == start + render_entries(pair_views(props@).take(i as int)),
        decreases props.len() - i,
    {
        let ghost old_text = text@;
        text.append(props[i].0.as_str());
        push_char(text, '=');
        text.append(props[i].1.as_str());
        push_char(text, '\n');
        proof {
            let pv = pair_views(props@);
            assert(pv.take(i + 1) =~= pv.take(i as int).push((props@[i as int].0@, props@[i as int].1@)));
            lemma_render_entries_push(pv.take(i as int), props@[i as int].0@, props@[i as int].1@);
            assert(text@ =~= old_text + render_entry(props@[i as int].0@, props@[i as int].1@));
        }
        i = i + 1;
    }
    assert(pair_views(props@).take(props.len() as int) =~= pair_views(props@));
}

/// Writes `server.properties` from an ordered list of pairs: the header
/// comment, then `key=value` per pair.
pub fn render_server_properties(props: &Vec<(String, String)>) -> (text: String)
    ensures
        text@ == render_properties(pair_views(props@)),
{
    let mut text = String::from_str("# server.properties (edited in ChocoModrinth)");
    push_char(&mut text, '\n');
    append_entries(&mut text, props);
    text
}

} // verus!
