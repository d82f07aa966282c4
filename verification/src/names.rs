//! Names the launcher derives from user input or files: server folder
//! names, world folder names, the enabled/disabled names of content files,
//! and the checks made on file names before they are used.
use vstd::prelude::*;
use crate::loader::ErrorKind;
use crate::numbers::{decimal, decimal_string};
use crate::text::{
    chars_of, contains_seq, ends_with, is_whitespace, is_ws, lemma_trim_shape, push_char,
    string_of_range, trim, trim_range, vec_ends_with,
};

verus! {

/// Characters that cannot stand in a folder name on common file systems.
pub open spec fn is_forbidden_in_name(c: char) -> bool {
    c == '/' || c == '\\' || c == '?' || c == '*' || c == ':' || c == '"' || c == '<' || c == '>'
        || c == '|'
}

pub open spec fn blank_forbidden(s: Seq<char>) -> Seq<char> {
    s.map_values(|c: char|
        if is_forbidden_in_name(c) {
            ' '
        } else {
            c
        })
}

/// A server's folder name: forbidden characters made spaces, then trimmed;
/// `server` where nothing is left.
pub open spec fn sanitized_server_name(s: Seq<char>) -> Seq<char> {
    let t = trim(blank_forbidden(s));
    if t.len() == 0 {
        "server"@
    } else {
        t
    }
}

/// Characters kept in a world folder name.
pub open spec fn is_level_char(c: char) -> bool {
    let n = c as u32;
    (48 <= n && n <= 57) || (65 <= n && n <= 90) || (97 <= n && n <= 122) || c == '_' || c == '-'
}

/// A world folder name: characters other than ASCII letters, digits, `_`
/// and `-` made `_`; `world` for an empty name.
pub open spec fn sanitized_level_name(s: Seq<char>) -> Seq<char> {
    if s.len() == 0 {
        "world"@
    } else {
        s.map_values(|c: char|
            if is_level_char(c) {
                c
            } else {
                '_'
            })
    }
}

fn is_forbidden_char(c: char) -> (b: bool)
    ensures
        b == is_forbidden_in_name(c),
{
    c == '/' || c == '\\' || c == '?' || c == '*' || c == ':' || c == '"' || c == '<' || c == '>'
        || c == '|'
}

/// The folder name for a new server named `name`.
pub fn sanitize_server_name(name: &str) -> (r: String)
    ensures
        r@ == sanitized_server_name(name@),
{
    let v = chars_of(name);
    let mut w: Vec<char> = Vec::new();
    let mut i: usize = 0;
    while i < v.len()
        invariant
            i <= v.len(),
            w@ == blank_forbidden(v@.take(i as int)),
        decreases v.len() - i,
    {
        let c = v[i];
        if is_forbidden_char(c) {
            w.push(' ');
        } else {
            w.push(c);
        }
        i = i + 1;
        assert(w@ =~= blank_forbidden(v@.take(i as int)));
    }
    assert(v@.take(v.len() as int) =~= v@);
    assert(v@ == name@);
    let (a, b) = trim_range(&w, 0, w.len());
    assert(w@.subrange(0, w@.len() as int) =~= w@);
    if a == b {
        String::from_str("server")
    } else {
        string_of_range(&w, a, b)
    }
}

/// The world folder name for a save called `name`.
pub fn sanitize_level_name(name: &str) -> (r: String)
    ensures
        r@ == sanitized_level_name(name@),
{
    let v = chars_of(name);
    if v.len() == 0 {
        return String::from_str("world");
    }
    let mut r = String::new();
    let mut i: usize = 0;
    while i < v.len()
        invariant
            i <= v.len(),
            v@ == name@,
            r@ == v@.take(i as int).map_values(|c: char|
                if is_level_char(c) {
                    c
                } else {
                    '_'
                }),
        decreases v.len() - i,
    {
        let c = v[i];
        let n = c as u32;
        if (48 <= n && n <= 57) || (65 <= n && n <= 90) || (97 <= n && n <= 122) || c == '_' || c
            == '-' {
            push_char(&mut r, c);
        } else {
            push_char(&mut r, '_');
        }
        i = i + 1;
        assert(r@ =~= v@.take(i as int).map_values(|c: char|
            if is_level_char(c) {
                c
            } else {
                '_'
            }));
    }
    assert(v@.take(v.len() as int) =~= v@);
    r
}

/// Sanitizing a server name that was sanitized already changes nothing;
/// a sanitized name is never empty, holds no forbidden character, and has
/// no leading or trailing whitespace.
pub proof fn law_sanitize_server_name(s: Seq<char>)
    ensures
        sanitized_server_name(sanitized_server_name(s)) == sanitized_server_name(s),
        sanitized_server_name(s).len() > 0,
        forall|i: int|
            0 <= i < sanitized_server_name(s).len() ==> !is_forbidden_in_name(
                #[trigger] sanitized_server_name(s)[i],
            ),
        !is_ws(sanitized_server_name(s)[0]),
        !is_ws(sanitized_server_name(s).last()),
{
    reveal_strlit("server");
    let b = blank_forbidden(s);
    let t = trim(b);
    lemma_trim_shape(b);
    let r = sanitized_server_name(s);
    assert forall|i: int| 0 <= i < r.len() implies !is_forbidden_in_name(#[trigger] r[i]) by {
        if t.len() > 0 {
            let (x, y) = choose|x: int, y: int| 0 <= x <= y <= b.len() && t == b.subrange(x, y);
            assert(r[i] == b[x + i]);
        }
    }
    assert(blank_forbidden(r) =~= r);
    lemma_trim_shape(r);
    if t.len() == 0 {
        assert(trim(r) == r) by {
            assert(crate::text::trim_start(r) == r);
            assert(crate::text::trim_end(r) == r);
        }
    }
}

/// Sanitizing a world name that was sanitized already changes nothing, and
/// a sanitized world name holds only the kept characters.
pub proof fn law_sanitize_level_name(s: Seq<char>)
    ensures
        sanitized_level_name(sanitized_level_name(s)) == sanitized_level_name(s),
        sanitized_level_name(s).len() > 0,
        forall|i: int|
            0 <= i < sanitized_level_name(s).len() ==> is_level_char(
                #[trigger] sanitized_level_name(s)[i],
            ),
{
    reveal_strlit("world");
    let r = sanitized_level_name(s);
    assert forall|i: int| 0 <= i < r.len() implies is_level_char(#[trigger] r[i]) by {}
    assert(sanitized_level_name(r) =~= r);
}

/// The folder name tried after `name` is taken: `name (n)`.
pub open spec fn numbered_name(name: Seq<char>, n: nat) -> Seq<char> {
    name + " ("@ + decimal(n) + ")"@
}

/// `name (n)`, the folder name tried for a new server once `name` and the
/// names numbered below `n` are taken.
pub fn numbered_server_path(name: &str, n: u64) -> (r: String)
    ensures
        r@ == numbered_name(name@, n as nat),
{
    let mut r = String::from_str(name);
    r.append(" (");
    let d = decimal_string(n);
    r.append(d.as_str());
    r.append(")");
    r
}

/// The suffix that marks a disabled content file.
pub open spec fn disabled_suffix() -> Seq<char> {
    ".disabled"@
}

/// Whether a content file is enabled: its name does not end in `.disabled`.
pub open spec fn is_enabled_name(name: Seq<char>) -> bool {
    !ends_with(name, disabled_suffix())
}

/// The name a content file gets when enabled (the `.disabled` suffix taken
/// off, if present) or disabled (`.disabled` added).
pub open spec fn toggled_name(name: Seq<char>, enabled: bool) -> Seq<char> {
    if enabled {
        if ends_with(name, disabled_suffix()) {
            name.take(name.len() - disabled_suffix().len())
        } else {
            name
        }
    } else {
        name + disabled_suffix()
    }
}

pub fn is_enabled_content(file_name: &str) -> (b: bool)
    ensures
        b == is_enabled_name(file_name@),
{
    let v = chars_of(file_name);
    let suffix = chars_of(".disabled");
    !vec_ends_with(&v, &suffix)
}

/// The new name of a content file switched on or off.
pub fn toggled_content_name(file_name: &str, enabled: bool) -> (r: String)
    ensures
        r@ == toggled_name(file_name@, enabled),
{
    let v = chars_of(file_name);
    if enabled {
        let suffix = chars_of(".disabled");
        if vec_ends_with(&v, &suffix) {
            string_of_range(&v, 0, v.len() - suffix.len())
        } else {
            string_of_range(&v, 0, v.len())
        }
    } else {
        let mut r = String::from_str(file_name);
        r.append(".disabled");
        r
    }
}

/// Disabling a content file and enabling it again gives back its name;
/// a disabled name is never enabled and an enabled one never disabled.
pub proof fn law_toggle_round_trip(name: Seq<char>)
    ensures
        toggled_name(toggled_name(name, false), true) == name,
        !is_enabled_name(toggled_name(name, false)),
        is_enabled_name(toggled_name(name, true)) || ends_with(name, disabled_suffix() + disabled_suffix()),
{
    let d = disabled_suffix();
    let n2 = name + d;
    assert(n2.skip(n2.len() - d.len()) =~= d);
    assert(n2.take(n2.len() - d.len()) =~= name);
    let t = toggled_name(name, true);
    if ends_with(name, d) && !is_enabled_name(t) {
        let k = name.len() - d.len();
        assert(t =~= name.take(k));
        assert(name.skip(name.len() - (d + d).len()) =~= d + d) by {
            assert(name.skip(k) == d);
            assert(t.skip(t.len() - d.len()) == d);
            assert forall|j: int| 0 <= j < (d + d).len() implies name.skip(name.len() - (d
                + d).len())[j] == (d + d)[j] by {
                if j < d.len() {
                    assert(name.skip(name.len() - (d + d).len())[j] == t.skip(t.len() - d.len())[j]);
                } else {
                    assert(name.skip(name.len() - (d + d).len())[j] == name.skip(k)[j - d.len()]);
                }
            }
        }
    }
}

/// A content file name that cannot leave the content folder: no `/`, no
/// `\` and no `..`.
pub open spec fn is_safe_file_name(name: Seq<char>) -> bool {
    !name.contains('/') && !name.contains('\\') && !contains_seq(name, ".."@)
}

/// Refuses file names that could reach outside the content folder.
pub fn check_content_file_name(file_name: &str) -> (r: Result<(), ErrorKind>)
    ensures
        is_safe_file_name(file_name@) ==> r is Ok,
        !is_safe_file_name(file_name@) ==> (r matches Err(ErrorKind::InputError(m)) && m@
            == "Invalid file name"@),
{
    let v = chars_of(file_name);
    let mut i: usize = 0;
    while i < v.len()
        invariant
            v@ == file_name@,
            i <= v.len(),
            forall|j: int| 0 <= j < i ==> v@[j] != '/' && v@[j] != '\\',
            forall|j: int|
                0 <= j < i && j + 1 < v@.len() ==> !(#[trigger] v@[j] == '.' && v@[j + 1] == '.'),
        decreases v.len() - i,
    {
        let c = v[i];
        if c == '/' || c == '\\' || (c == '.' && i + 1 < v.len() && v[i + 1] == '.') {
            proof {
                reveal_strlit("..");
                if c == '.' && c != '/' && c != '\\' {
                    assert(v@.subrange(i as int, i + 2) =~= ".."@);
                }
            }
            return Err(ErrorKind::InputError(String::from_str("Invalid file name")));
        }
        i = i + 1;
    }
    proof {
        reveal_strlit("..");
        assert(!v@.contains('/'));
        assert(!v@.contains('\\'));
        if contains_seq(v@, ".."@) {
            let j = choose|j: int|
                0 <= j && j + ".."@.len() <= v@.len() && #[trigger] v@.subrange(j, j + ".."@.len())
                    == ".."@;
            assert(v@.subrange(j, j + 2)[0] == v@[j]);
            assert(v@.subrange(j, j + 2)[1] == v@[j + 1]);
        }
    }
    Ok(())
}

/// A file in a profile's mods folder that is copied to a server: a `.jar`
/// that is not marked `.disabled`.
pub open spec fn is_server_mod_file(name: Seq<char>) -> bool {
    ends_with(name, ".jar"@) && !ends_with(name, disabled_suffix())
}

pub fn is_copyable_mod_file(file_name: &str) -> (b: bool)
    ensures
        b == is_server_mod_file(file_name@),
{
    let v = chars_of(file_name);
    let jar = chars_of(".jar");
    let disabled = chars_of(".disabled");
    vec_ends_with(&v, &jar) && !vec_ends_with(&v, &disabled)
}

/// The extension of a file name as `Path::extension` gives it: what
/// follows the last `.`, unless nothing precedes that dot or the name is
/// `..`.
pub open spec fn extension_of(name: Seq<char>) -> Option<Seq<char>> {
    if name == ".."@ {
        None
    } else {
        match last_dot(name) {
            Some(i) => if i == 0 {
                None
            } else {
                Some(name.skip(i + 1))
            },
            None => None,
        }
    }
}

/// The position of the last `.` in `name`, if any.
pub open spec fn last_dot(name: Seq<char>) -> Option<int>
    decreases name.len(),
{
    if name.len() == 0 {
        None
    } else if name.last() == '.' {
        Some(name.len() - 1)
    } else {
        last_dot(name.drop_last())
    }
}

pub open spec fn ascii_lower(c: char) -> char {
    if 65 <= c as u32 && c as u32 <= 90 {
        ((c as u32) + 32) as char
    } else {
        c
    }
}

/// Whether two texts are equal when ASCII letters are compared regardless
/// of case, as `str::eq_ignore_ascii_case` compares them.
pub open spec fn eq_ignore_ascii_case(a: Seq<char>, b: Seq<char>) -> bool {
    a.len() == b.len() && forall|i: int| 0 <= i < a.len() ==> ascii_lower(#[trigger] a[i])
        == ascii_lower(b[i])
}

/// Whether a file is taken as a PNG image: its extension is `png` in any
/// letter case.
pub open spec fn is_png_name(name: Seq<char>) -> bool {
    match extension_of(name) {
        Some(e) => eq_ignore_ascii_case(e, "png"@),
        None => false,
    }
}

fn lower_ascii(c: char) -> (r: char)
    ensures
        r == ascii_lower(c),
{
    let n = c as u32;
    if 65 <= n && n <= 90 {
        ((n as u8) + 32) as char
    } else {
        c
    }
}

/// Whether a file name has the extension `png`, in any letter case.
pub fn is_png_file_name(file_name: &str) -> (b: bool)
    ensures
        b == is_png_name(file_name@),
{
    let v = chars_of(file_name);
    proof {
        reveal_strlit("..");
        reveal_strlit("png");
    }
    if v.len() == 2 && v[0] == '.' && v[1] == '.' {
        assert(v@ =~= ".."@);
        return false;
    }
    assert(v@ != ".."@);
    let mut i = v.len();
    assert(v@.take(i as int) =~= v@);
    while i > 0 && v[i - 1] != '.'
        invariant
            i <= v.len(),
            last_dot(v@) == last_dot(v@.take(i as int)),
        decreases i,
    {
        assert(v@.take(i as int).drop_last() =~= v@.take(i - 1));
        i = i - 1;
    }
    assert(v@.take(v.len() as int) =~= v@);
    if i == 0 {
        assert(v@.take(0) =~= Seq::<char>::empty());
        return false;
    }
    assert(v@.take(i as int).last() == '.');
    if i == 1 {
        return false;
    }
    if v.len() - i != 3 {
        return false;
    }
    let ghost e = v@.skip(i as int);
    let a = lower_ascii(v[i]);
    let b = lower_ascii(v[i + 1]);
    let c = lower_ascii(v[i + 2]);
    assert(e[0] == v@[i as int] && e[1] == v@[i + 1] && e[2] == v@[i + 2]);
    let r = a == 'p' && b == 'n' && c == 'g';
    proof {
        if r {
            assert forall|j: int| 0 <= j < e.len() implies ascii_lower(#[trigger] e[j])
                == ascii_lower("png"@[j]) by {}
        } else {
            if eq_ignore_ascii_case(e, "png"@) {
                assert(ascii_lower(e[0]) == ascii_lower("png"@[0]));
                assert(ascii_lower(e[1]) == ascii_lower("png"@[1]));
                assert(ascii_lower(e[2]) == ascii_lower("png"@[2]));
            }
        }
    }
    r
}

} // verus!
