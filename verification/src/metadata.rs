//! What the launcher reads out of mod jars and server status replies: the
//! name, version and icon of a mod from its Fabric, Quilt or Forge
//! metadata, and the message of the day of a running server.
use vstd::prelude::*;
use crate::text::{
    chars_of, ends_with, line_at, lines, starts_with, string_of_range, trim, trim_range,
    vec_starts_with,
};

verus! {

/// A JSON value, as the metadata files and status replies hold them.
/// Numbers are kept only as such: nothing here reads them.
#[derive(Debug)]
pub enum JsonValue {
    Null,
    Bool(bool),
    Number,
    Str(String),
    Array(Vec<JsonValue>),
    Object(Vec<(String, JsonValue)>),
}

/// The value under `key` among an object's members (the first such).
pub open spec fn member(members: Seq<(String, JsonValue)>, key: Seq<char>) -> Option<JsonValue>
    decreases members.len(),
{
    if members.len() == 0 {
        None
    } else if members[0].0@ == key {
        Some(members[0].1)
    } else {
        member(members.drop_first(), key)
    }
}

/// `value.get(key)`: the member `key` of an object; nothing for any other
/// value.
pub open spec fn json_get(v: Option<JsonValue>, key: Seq<char>) -> Option<JsonValue> {
    match v {
        Some(JsonValue::Object(m)) => member(m@, key),
        _ => None,
    }
}

/// `value.as_str()`: the text of a string value.
pub open spec fn json_str(v: Option<JsonValue>) -> Option<Seq<char>> {
    match v {
        Some(JsonValue::Str(s)) => Some(s@),
        _ => None,
    }
}

fn get_member<'a>(v: &'a JsonValue, key: &str) -> (r: Option<&'a JsonValue>)
    ensures
        match r {
            Some(x) => json_get(Some(*v), key@) == Some(*x),
            None => json_get(Some(*v), key@) is None,
        },
{
    match v {
        JsonValue::Object(m) => {
            let mut i: usize = 0;
            assert(m@.skip(0) =~= m@);
            assert(json_get(Some(*v), key@) == member(m@, key@));
            while i < m.len()
                invariant
                    i <= m.len(),
                    json_get(Some(*v), key@) == member(m@, key@),
                    member(m@, key@) == member(m@.skip(i as int), key@),
                decreases m.len() - i,
            {
                assert(m@.skip(i as int).drop_first() =~= m@.skip(i + 1));
                if crate::text::same_text(m[i].0.as_str(), key) {
                    return Some(&m[i].1);
                }
                i = i + 1;
            }
            None
        },
        _ => None,
    }
}

fn str_of(v: Option<&JsonValue>) -> (r: Option<String>)
    ensures
        match r {
            Some(s) => json_str(opt_deref(v)) == Some(s@),
            None => json_str(opt_deref(v)) is None,
        },
{
    match v {
        Some(JsonValue::Str(s)) => Some(s.clone()),
        _ => None,
    }
}

pub open spec fn opt_deref(v: Option<&JsonValue>) -> Option<JsonValue> {
    match v {
        Some(x) => Some(*x),
        None => None,
    }
}

pub open spec fn opt_text(o: Option<String>) -> Option<Seq<char>> {
    match o {
        Some(s) => Some(s@),
        None => None,
    }
}

/// The text of the `text` members of chat components, joined.
pub open spec fn extra_text(extras: Seq<JsonValue>) -> Seq<char>
    decreases extras.len(),
{
    if extras.len() == 0 {
        seq![]
    } else {
        extra_text(extras.drop_last()) + match json_str(json_get(Some(extras.last()), "text"@)) {
            Some(t) => t,
            None => seq![],
        }
    }
}

/// The plain text of a server description: a string as it is; a chat
/// component's `text` followed by the `text` of each of its `extra`
/// components; nothing for anything else.
pub open spec fn description(v: JsonValue) -> Option<Seq<char>> {
    match v {
        JsonValue::Str(s) => Some(s@),
        _ => match json_str(json_get(Some(v), "text"@)) {
            Some(t) => Some(
                t + match json_get(Some(v), "extra"@) {
                    Some(JsonValue::Array(a)) => extra_text(a@),
                    _ => seq![],
                },
            ),
            None => None,
        },
    }
}

/// The message of the day of a status reply's description, if it has one.
pub fn description_text(raw: Option<&JsonValue>) -> (r: Option<String>)
    ensures
        opt_text(r) == match raw {
            Some(v) => description(*v),
            None => None,
        },
{
    let v = match raw {
        Some(v) => v,
        None => return None,
    };
    if let JsonValue::Str(s) = v {
        return Some(s.clone());
    }
    let t = match str_of(get_member(v, "text")) {
        Some(t) => t,
        None => return None,
    };
    let mut out = t;
    match get_member(v, "extra") {
        Some(JsonValue::Array(a)) => {
            let ghost start = out@;
            let mut i: usize = 0;
            assert(a@.take(0) =~= Seq::<JsonValue>::empty());
            while i < a.len()
                invariant
                    i <= a.len(),
                    out@ == start + extra_text(a@.take(i as int)),
                decreases a.len() - i,
            {
                let ghost before = out@;
                assert(a@.take(i + 1).drop_last() =~= a@.take(i as int));
                match str_of(get_member(&a[i], "text")) {
                    Some(p) => {
                        out.append(p.as_str());
                    },
                    None => {},
                }
                assert(out@ =~= start + extra_text(a@.take(i + 1)));
                i = i + 1;
            }
            assert(a@.take(a.len() as int) =~= a@);
        },
        _ => {
            assert(out@ =~= out@ + Seq::<char>::empty());
        },
    }
    Some(out)
}

/// Name, version and icon path from a `fabric.mod.json`.
pub open spec fn fabric_fields(v: JsonValue) -> (Option<Seq<char>>, Option<Seq<char>>, Option<
    Seq<char>,
>) {
    (
        json_str(json_get(Some(v), "name"@)),
        json_str(json_get(Some(v), "version"@)),
        json_str(json_get(Some(v), "icon"@)),
    )
}

/// Name, version and icon path from a `quilt.mod.json`: under
/// `quilt_loader`, the version directly and the others in `metadata`.
pub open spec fn quilt_fields(v: JsonValue) -> (Option<Seq<char>>, Option<Seq<char>>, Option<
    Seq<char>,
>) {
    let l = json_get(Some(v), "quilt_loader"@);
    (
        json_str(json_get(json_get(l, "metadata"@), "name"@)),
        json_str(json_get(l, "version"@)),
        json_str(json_get(json_get(l, "metadata"@), "icon"@)),
    )
}

pub fn mod_json_fields(v: &JsonValue, is_quilt: bool) -> (r: (Option<String>, Option<String>, Option<
    String,
>))
    ensures
        (opt_text(r.0), opt_text(r.1), opt_text(r.2)) == if is_quilt {
            quilt_fields(*v)
        } else {
            fabric_fields(*v)
        },
{
    if !is_quilt {
        (
            str_of(get_member(v, "name")),
            str_of(get_member(v, "version")),
            str_of(get_member(v, "icon")),
        )
    } else {
        match get_member(v, "quilt_loader") {
            Some(l) => {
                let meta = get_member(l, "metadata");
                let name = match meta {
                    Some(m) => str_of(get_member(m, "name")),
                    None => None,
                };
                let icon = match meta {
                    Some(m) => str_of(get_member(m, "icon")),
                    None => None,
                };
                (name, str_of(get_member(l, "version")), icon)
            },
            None => (None, None, None),
        }
    }
}

/// `s` with every leading and trailing `"` removed, as
/// `str::trim_matches('"')` gives it.
pub open spec fn trim_quotes(s: Seq<char>) -> Seq<char>
    decreases s.len(),
{
    if s.len() > 0 && s[0] == '"' {
        trim_quotes(s.drop_first())
    } else if s.len() > 0 && s.last() == '"' {
        trim_quotes(s.drop_last())
    } else {
        s
    }
}

/// The first `displayName=` value of a `mods.toml`, its quotes removed.
pub open spec fn toml_title(ls: Seq<Seq<char>>) -> Option<Seq<char>>
    decreases ls.len(),
{
    if ls.len() == 0 {
        None
    } else {
        let l = trim(ls[0]);
        if starts_with(l, "displayName="@) {
            Some(trim_quotes(l.skip("displayName="@.len() as int)))
        } else {
            toml_title(ls.drop_first())
        }
    }
}

/// The first literal `version=` value of a `mods.toml`, its quotes removed;
/// values that are `${...}` placeholders are passed over.
pub open spec fn toml_version(ls: Seq<Seq<char>>) -> Option<Seq<char>>
    decreases ls.len(),
{
    if ls.len() == 0 {
        None
    } else {
        let l = trim(ls[0]);
        let v = trim_quotes(l.skip("version="@.len() as int));
        if starts_with(l, "version="@) && !starts_with(v, "${"@) {
            Some(v)
        } else {
            toml_version(ls.drop_first())
        }
    }
}

/// The bounds of `trim_quotes(v[from..to])` inside `v`.
fn trim_quotes_range(v: &Vec<char>, from: usize, to: usize) -> (r: (usize, usize))
    requires
        from <= to <= v.len(),
    ensures
        from <= r.0 <= r.1 <= to,
        v@.subrange(r.0 as int, r.1 as int) == trim_quotes(v@.subrange(from as int, to as int)),
    decreases to - from,
{
    if from < to && v[from] == '"' {
        let r = trim_quotes_range(v, from + 1, to);
        assert(v@.subrange(from as int, to as int).drop_first() =~= v@.subrange(from + 1, to as int));
        r
    } else if from < to && v[to - 1] == '"' {
        let r = trim_quotes_range(v, from, to - 1);
        assert(v@.subrange(from as int, to as int).drop_last() =~= v@.subrange(from as int, to - 1));
        r
    } else {
        (from, to)
    }
}

/// Title and version from a Forge `META-INF/mods.toml`.
pub fn parse_mods_toml(text: &str) -> (r: (Option<String>, Option<String>))
    ensures
        opt_text(r.0) == toml_title(lines(text@)),
        opt_text(r.1) == toml_version(lines(text@)),
{
    let v = chars_of(text);
    let n = v.len();
    let dn = chars_of("displayName=");
    let vp = chars_of("version=");
    let ph = chars_of("${");
    let mut title: Option<String> = None;
    let mut version: Option<String> = None;
    let mut pos: usize = 0;
    assert(v@.skip(0) =~= v@);
    while pos < n
        invariant
            n == v.len(),
            v@ == text@,
            pos <= n,
            dn@ == "displayName="@,
            vp@ == "version="@,
            ph@ == "${"@,
            match title {
                Some(t) => toml_title(lines(text@)) == Some(t@),
                None => toml_title(lines(text@)) == toml_title(lines(v@.skip(pos as int))),
            },
            match version {
                Some(t) => toml_version(lines(text@)) == Some(t@),
                None => toml_version(lines(text@)) == toml_version(lines(v@.skip(pos as int))),
            },
        decreases n - pos,
    {
        let (end, next) = line_at(&v, pos);
        let ghost ls = lines(v@.skip(pos as int));
        let ghost line = v@.subrange(pos as int, end as int);
        assert(ls[0] == line);
        assert(ls.drop_first() =~= lines(v@.skip(next as int)));
        let (a, b) = trim_range(&v, pos, end);
        let ghost l = v@.subrange(a as int, b as int);
        let mut ls_chars: Vec<char> = Vec::new();
        let mut k = a;
        while k < b
            invariant
                a <= k <= b <= v.len(),
                ls_chars@ == v@.subrange(a as int, k as int),
            decreases b - k,
        {
            ls_chars.push(v[k]);
            k = k + 1;
            assert(ls_chars@ =~= v@.subrange(a as int, k as int));
        }
        if title.is_none() && vec_starts_with(&ls_chars, &dn) {
            let (x, y) = trim_quotes_range(&v, a + dn.len(), b);
            assert(l.skip(dn.len() as int) =~= v@.subrange(a + dn.len(), b as int));
            title = Some(string_of_range(&v, x, y));
        }
        if version.is_none() && vec_starts_with(&ls_chars, &vp) {
            let (x, y) = trim_quotes_range(&v, a + vp.len(), b);
            assert(l.skip(vp.len() as int) =~= v@.subrange(a + vp.len(), b as int));
            let mut val: Vec<char> = Vec::new();
            let mut j = x;
            while j < y
                invariant
                    x <= j <= y <= v.len(),
                    val@ == v@.subrange(x as int, j as int),
                decreases y - j,
            {
                val.push(v[j]);
                j = j + 1;
                assert(val@ =~= v@.subrange(x as int, j as int));
            }
            if !vec_starts_with(&val, &ph) {
                version = Some(string_of_range(&v, x, y));
            }
        }
        pos = next;
    }
    assert(v@.skip(n as int) =~= Seq::<char>::empty());
    assert(lines(Seq::<char>::empty()) =~= Seq::<Seq<char>>::empty());
    (title, version)
}

/// What a running local server reports about itself.
#[derive(Debug, Clone)]
pub struct ServerPingResult {
    pub motd: Option<String>,
    pub players_online: i32,
    pub players_max: i32,
    pub players: Vec<String>,
    pub favicon: Option<String>,
    pub version: Option<String>,
}

/// The dashboard's view of a status reply: its description's plain text as
/// MOTD; the player counts and sampled names where the reply has a players
/// section, else none.
pub fn ping_result(
    description: Option<&JsonValue>,
    players: Option<(i32, i32, Vec<String>)>,
    favicon: Option<String>,
    version: Option<String>,
) -> (r: ServerPingResult)
    ensures
        opt_text(r.motd) == match description {
            Some(v) => crate::metadata::description(*v),
            None => None,
        },
        match players {
            Some((online, max, names)) => r.players_online == online && r.players_max == max
                && r.players == names,
            None => r.players_online == 0 && r.players_max == 0 && r.players@.len() == 0,
        },
        r.favicon == favicon,
        r.version == version,
{
    let motd = description_text(description);
    match players {
        Some((online, max, names)) => ServerPingResult {
            motd,
            players_online: online,
            players_max: max,
            players: names,
            favicon,
            version,
        },
        None => ServerPingResult {
            motd,
            players_online: 0,
            players_max: 0,
            players: Vec::new(),
            favicon,
            version,
        },
    }
}

} // verus!
