//! Path normalization between `~`-relative, Windows (`X:\...`) and WSL
//! (`/mnt/<drive>/...`) path forms. The conversions are pure character
//! rewrites; only learning the home directory goes through an outside call.

use vstd::prelude::*;

verus! {

use crate::text;

/// Lower-cases an ASCII drive letter, leaving every other character alone.
pub open spec fn spec_lower_drive(c: char) -> char {
    if c == 'A' {
        'a'
    } else if c == 'B' {
        'b'
    } else if c == 'C' {
        'c'
    } else if c == 'D' {
        'd'
    } else if c == 'E' {
        'e'
    } else if c == 'F' {
        'f'
    } else if c == 'G' {
        'g'
    } else if c == 'H' {
        'h'
    } else if c == 'I' {
        'i'
    } else if c == 'J' {
        'j'
    } else if c == 'K' {
        'k'
    } else if c == 'L' {
        'l'
    } else if c == 'M' {
        'm'
    } else if c == 'N' {
        'n'
    } else if c == 'O' {
        'o'
    } else if c == 'P' {
        'p'
    } else if c == 'Q' {
        'q'
    } else if c == 'R' {
        'r'
    } else if c == 'S' {
        's'
    } else if c == 'T' {
        't'
    } else if c == 'U' {
        'u'
    } else if c == 'V' {
        'v'
    } else if c == 'W' {
        'w'
    } else if c == 'X' {
        'x'
    } else if c == 'Y' {
        'y'
    } else if c == 'Z' {
        'z'
    } else {
        c
    }
}

/// Upper-cases an ASCII drive letter, leaving every other character alone.
pub open spec fn spec_upper_drive(c: char) -> char {
    if c == 'a' {
        'A'
    } else if c == 'b' {
        'B'
    } else if c == 'c' {
        'C'
    } else if c == 'd' {
        'D'
    } else if c == 'e' {
        'E'
    } else if c == 'f' {
        'F'
    } else if c == 'g' {
        'G'
    } else if c == 'h' {
        'H'
    } else if c == 'i' {
        'I'
    } else if c == 'j' {
        'J'
    } else if c == 'k' {
        'K'
    } else if c == 'l' {
        'L'
    } else if c == 'm' {
        'M'
    } else if c == 'n' {
        'N'
    } else if c == 'o' {
        'O'
    } else if c == 'p' {
        'P'
    } else if c == 'q' {
        'Q'
    } else if c == 'r' {
        'R'
    } else if c == 's' {
        'S'
    } else if c == 't' {
        'T'
    } else if c == 'u' {
        'U'
    } else if c == 'v' {
        'V'
    } else if c == 'w' {
        'W'
    } else if c == 'x' {
        'X'
    } else if c == 'y' {
        'Y'
    } else if c == 'z' {
        'Z'
    } else {
        c
    }
}

pub open spec fn is_lower_letter(c: char) -> bool {
    'a' <= c <= 'z'
}

pub open spec fn is_upper_letter(c: char) -> bool {
    'A' <= c <= 'Z'
}

fn lower_drive(c: char) -> (r: char)
    ensures
        r == spec_lower_drive(c),
{
    match c {
        'A' => 'a',
        'B' => 'b',
        'C' => 'c',
        'D' => 'd',
        'E' => 'e',
        'F' => 'f',
        'G' => 'g',
        'H' => 'h',
        'I' => 'i',
        'J' => 'j',
        'K' => 'k',
        'L' => 'l',
        'M' => 'm',
        'N' => 'n',
        'O' => 'o',
        'P' => 'p',
        'Q' => 'q',
        'R' => 'r',
        'S' => 's',
        'T' => 't',
        'U' => 'u',
        'V' => 'v',
        'W' => 'w',
        'X' => 'x',
        'Y' => 'y',
        'Z' => 'z',
        _ => c,
    }
}

fn upper_drive(c: char) -> (r: char)
    ensures
        r == spec_upper_drive(c),
{
    match c {
        'a' => 'A',
        'b' => 'B',
        'c' => 'C',
        'd' => 'D',
        'e' => 'E',
        'f' => 'F',
        'g' => 'G',
        'h' => 'H',
        'i' => 'I',
        'j' => 'J',
        'k' => 'K',
        'l' => 'L',
        'm' => 'M',
        'n' => 'N',
        'o' => 'O',
        'p' => 'P',
        'q' => 'Q',
        'r' => 'R',
        's' => 'S',
        't' => 'T',
        'u' => 'U',
        'v' => 'V',
        'w' => 'W',
        'x' => 'X',
        'y' => 'Y',
        'z' => 'Z',
        _ => c,
    }
}

/// The `/mnt/` prefix of WSL drive paths.
pub open spec fn wsl_prefix() -> Seq<char> {
    seq!['/', 'm', 'n', 't', '/']
}

/// A Windows path `X:...` becomes `/mnt/x...` with backslashes turned into
/// forward slashes; any other path only has its backslashes turned.
pub open spec fn spec_to_wsl(s: Seq<char>) -> Seq<char> {
    if s.len() >= 2 && s[1] == ':' {
        wsl_prefix() + seq![spec_lower_drive(s[0])] + text::spec_replace(
            s.skip(2),
            seq!['\\'],
            seq!['/'],
        )
    } else {
        text::spec_replace(s, seq!['\\'], seq!['/'])
    }
}

/// A WSL path `/mnt/x...` becomes `X:...` with forward slashes turned into
/// backslashes; any other path is returned unchanged.
pub open spec fn spec_to_windows(s: Seq<char>) -> Seq<char> {
    if s.len() >= 7 && text::spec_starts_with(s, wsl_prefix()) {
        seq![spec_upper_drive(s[5]), ':'] + text::spec_replace(s.skip(6), seq!['/'], seq!['\\'])
    } else {
        s
    }
}

/// A leading `~` is replaced by the home directory, when one is known.
pub open spec fn spec_expand_home(s: Seq<char>, home: Option<Seq<char>>) -> Seq<char> {
    if s.len() > 0 && s[0] == '~' && home is Some {
        home->Some_0 + s.skip(1)
    } else {
        s
    }
}

/// Home expansion followed, on WSL hosts, by Windows-to-WSL conversion.
pub open spec fn spec_normalize(s: Seq<char>, home: Option<Seq<char>>, wsl: bool) -> Seq<char> {
    let e = spec_expand_home(s, home);
    if wsl {
        spec_to_wsl(e)
    } else {
        e
    }
}

/// The host kinds `get_platform` distinguishes besides WSL.
#[derive(Clone, Copy, PartialEq, Eq, Structural)]
pub enum HostOs {
    Windows,
    Macos,
    Linux,
}

pub open spec fn spec_platform(wsl: bool, os: HostOs) -> Seq<char> {
    if wsl {
        seq!['w', 's', 'l']
    } else {
        match os {
            HostOs::Windows => seq!['w', 'i', 'n', 'd', 'o', 'w', 's'],
            HostOs::Macos => seq!['m', 'a', 'c', 'o', 's'],
            HostOs::Linux => seq!['l', 'i', 'n', 'u', 'x'],
        }
    }
}

/// Relies on `dirs::home_dir`: the user's home directory as the platform
/// reports it, rendered with `Path::display`; `None` when the platform does
/// not know one. The result depends on the environment, so nothing more is
/// promised of it.
#[verifier::external_body]
fn home_dir_string() -> (r: Option<String>) {
    dirs::home_dir().map(|p| p.display().to_string())
}

pub struct PathMapper;

impl PathMapper {
    /// Windows drive paths become `/mnt/<lowercase drive>` paths and
    /// backslashes become forward slashes.
    pub fn to_wsl_path(path: &str) -> (r: String)
        ensures
            r@ == spec_to_wsl(path@),
    {
        let v = text::chars_of(path);
        let mut from: Vec<char> = Vec::new();
        from.push('\\');
        let mut to: Vec<char> = Vec::new();
        to.push('/');
        if v.len() >= 2 && v[1] == ':' {
            let drive = lower_drive(v[0]);
            let rest = text::copy_range(&v, 2, v.len());
            proof {
                assert(rest@ =~= v@.skip(2));
            }
            let conv = text::replace_chars(&rest, &from, &to);
            let mut out: Vec<char> = Vec::new();
            out.push('/');
            out.push('m');
            out.push('n');
            out.push('t');
            out.push('/');
            out.push(drive);
            text::push_all(&mut out, &conv);
            proof {
                assert(from@ =~= seq!['\\']);
                assert(to@ =~= seq!['/']);
                assert(out@ =~= wsl_prefix() + seq![spec_lower_drive(v@[0])] + conv@);
            }
            text::string_of(&out)
        } else {
            let conv = text::replace_chars(&v, &from, &to);
            proof {
                assert(from@ =~= seq!['\\']);
                assert(to@ =~= seq!['/']);
            }
            text::string_of(&conv)
        }
    }

    /// `/mnt/<drive>` paths become `<uppercase drive>:` paths and forward
    /// slashes become backslashes; other paths are returned unchanged.
    pub fn to_windows_path(path: &str) -> (r: String)
        ensures
            r@ == spec_to_windows(path@),
    {
        let v = text::chars_of(path);
        let mut prefix: Vec<char> = Vec::new();
        prefix.push('/');
        prefix.push('m');
        prefix.push('n');
        prefix.push('t');
        prefix.push('/');
        proof {
            assert(prefix@ =~= wsl_prefix());
        }
        if v.len() >= 7 && text::starts_with(&v, &prefix) {
            let drive = upper_drive(v[5]);
            let rest = text::copy_range(&v, 6, v.len());
            proof {
                assert(rest@ =~= v@.skip(6));
            }
            let mut from: Vec<char> = Vec::new();
            from.push('/');
            let mut to: Vec<char> = Vec::new();
            to.push('\\');
            let conv = text::replace_chars(&rest, &from, &to);
            let mut out: Vec<char> = Vec::new();
            out.push(drive);
            out.push(':');
            text::push_all(&mut out, &conv);
            proof {
                assert(from@ =~= seq!['/']);
                assert(to@ =~= seq!['\\']);
                assert(out@ =~= seq![spec_upper_drive(v@[5]), ':'] + conv@);
            }
            text::string_of(&out)
        } else {
            text::string_of(&v)
        }
    }

    /// Home expansion against a caller-supplied home directory.
    pub fn expand_home_with(path: &str, home: Option<&String>) -> (r: String)
        ensures
            r@ == spec_expand_home(
                path@,
                match home {
                    Some(h) => Some(h@),
                    None => None,
                },
            ),
    {
        let v = text::chars_of(path);
        if v.len() > 0 && v[0] == '~' {
            match home {
                Some(h) => {
                    let mut out = text::chars_of(h.as_str());
                    let rest = text::copy_range(&v, 1, v.len());
                    proof {
                        assert(rest@ =~= v@.skip(1));
                    }
                    text::push_all(&mut out, &rest);
                    text::string_of(&out)
                },
                None => text::string_of(&v),
            }
        } else {
            text::string_of(&v)
        }
    }

    /// Home expansion against the host's own home directory. Which home
    /// directory the host reports cannot be known here, so the contract
    /// names some home value; a path that does not start with `~` passes
    /// through unchanged.
    pub fn expand_home(path: &str) -> (r: String)
        ensures
            exists|h: Option<Seq<char>>| r@ == spec_expand_home(path@, h),
            !(path@.len() > 0 && path@[0] == '~') ==> r@ == path@,
    {
        let home = home_dir_string();
        let r = Self::expand_home_with(path, home.as_ref());
        proof {
            let h = match home {
                Some(s) => Some(s@),
                None => None,
            };
            assert(r@ == spec_expand_home(path@, h));
        }
        r
    }

    /// Home expansion, then Windows-to-WSL conversion on WSL hosts. The
    /// caller says whether the host is WSL; detecting that is I/O.
    pub fn normalize(path: &str, wsl: bool) -> (r: String)
        ensures
            exists|h: Option<Seq<char>>| r@ == spec_normalize(path@, h, wsl),
            !(path@.len() > 0 && path@[0] == '~') && !wsl ==> r@ == path@,
    {
        let expanded = Self::expand_home(path);
        let ghost h = choose|h: Option<Seq<char>>| expanded@ == spec_expand_home(path@, h);
        if wsl {
            let r = Self::to_wsl_path(expanded.as_str());
            proof {
                assert(r@ == spec_normalize(path@, h, wsl));
            }
            r
        } else {
            proof {
                assert(expanded@ == spec_normalize(path@, h, wsl));
            }
            expanded
        }
    }

    /// The platform label: `wsl` wins over the compiled-for host kind.
    pub fn get_platform(wsl: bool, os: HostOs) -> (r: String)
        ensures
            r@ == spec_platform(wsl, os),
    {
        let mut out: Vec<char> = Vec::new();
        if wsl {
            out.push('w');
            out.push('s');
            out.push('l');
            assert(out@ =~= seq!['w', 's', 'l']);
        } else {
            match os {
                HostOs::Windows => {
                    out.push('w');
                    out.push('i');
                    out.push('n');
                    out.push('d');
                    out.push('o');
                    out.push('w');
                    out.push('s');
                    assert(out@ =~= seq!['w', 'i', 'n', 'd', 'o', 'w', 's']);
                },
                HostOs::Macos => {
                    out.push('m');
                    out.push('a');
                    out.push('c');
                    out.push('o');
                    out.push('s');
                    assert(out@ =~= seq!['m', 'a', 'c', 'o', 's']);
                },
                HostOs::Linux => {
                    out.push('l');
                    out.push('i');
                    out.push('n');
                    out.push('u');
                    out.push('x');
                    assert(out@ =~= seq!['l', 'i', 'n', 'u', 'x']);
                },
            }
        }
        text::string_of(&out)
    }
}

/// Single-character replacement rewrites each character independently.
pub proof fn lemma_replace_single(s: Seq<char>, c1: char, c2: char)
    ensures
        text::spec_replace(s, seq![c1], seq![c2]).len() == s.len(),
        forall|i: int|
            0 <= i < s.len() ==> text::spec_replace(s, seq![c1], seq![c2])[i] == (if s[i] == c1 {
                c2
            } else {
                s[i]
            }),
    decreases s.len(),
{
    let f = seq![c1];
    let t = seq![c2];
    if s.len() == 0 {
    } else {
        lemma_replace_single(s.skip(1), c1, c2);
        if s[0] == c1 {
            assert(s.take(1) =~= f);
            assert(text::spec_replace(s, f, t) == t + text::spec_replace(s.skip(1), f, t));
        } else {
            assert(s.take(1) != f) by {
                assert(s.take(1)[0] == s[0]);
            }
            assert(text::spec_replace(s, f, t) == seq![s[0]] + text::spec_replace(s.skip(1), f, t));
        }
        assert forall|i: int|
            0 <= i < s.len() implies text::spec_replace(s, f, t)[i] == (if s[i] == c1 {
                c2
            } else {
                s[i]
            }) by {
            if i > 0 {
                assert(text::spec_replace(s, f, t)[i] == text::spec_replace(s.skip(1), f, t)[i
                    - 1]);
                assert(s.skip(1)[i - 1] == s[i]);
            }
        }
    }
}

/// Law: a WSL path of the form `/mnt/<lowercase drive>/...` that holds no
/// backslash survives the round trip to Windows form and back unchanged.
pub proof fn lemma_wsl_windows_roundtrip(p: Seq<char>)
    requires
        p.len() >= 7,
        text::spec_starts_with(p, wsl_prefix()),
        is_lower_letter(p[5]),
        forall|j: int| 6 <= j < p.len() ==> p[j] != '\\',
    ensures
        spec_to_wsl(spec_to_windows(p)) == p,
{
    let rest = p.skip(6);
    lemma_replace_single(rest, '/', '\\');
    let conv = text::spec_replace(rest, seq!['/'], seq!['\\']);
    let w = seq![spec_upper_drive(p[5]), ':'] + conv;
    assert(spec_to_windows(p) == w);
    assert(w.len() >= 3);
    assert(w[1] == ':');
    assert(w.skip(2) =~= conv);
    lemma_replace_single(conv, '\\', '/');
    let back = text::spec_replace(conv, seq!['\\'], seq!['/']);
    assert forall|i: int| 0 <= i < back.len() implies back[i] == rest[i] by {
        assert(conv[i] == (if rest[i] == '/' {
            '\\'
        } else {
            rest[i]
        }));
        assert(rest[i] == p[6 + i]);
        assert(p[6 + i] != '\\');
    }
    assert(back =~= rest);
    assert(spec_lower_drive(spec_upper_drive(p[5])) == p[5]);
    assert(w[0] == spec_upper_drive(p[5]));
    let result = wsl_prefix() + seq![spec_lower_drive(w[0])] + back;
    assert(spec_to_wsl(w) == result);
    assert forall|j: int| 0 <= j < 5 implies p[j] == wsl_prefix()[j] by {
        assert(p.subrange(0, 5)[j] == p[j]);
    }
    assert(result =~= p);
}

/// Law: a Windows path `X:...` with an uppercase drive letter, a non-empty
/// remainder, and no forward slash survives the round trip to WSL form and
/// back unchanged.
pub proof fn lemma_windows_wsl_roundtrip(p: Seq<char>)
    requires
        p.len() >= 3,
        p[1] == ':',
        is_upper_letter(p[0]),
        forall|j: int| 2 <= j < p.len() ==> p[j] != '/',
    ensures
        spec_to_windows(spec_to_wsl(p)) == p,
{
    let rest = p.skip(2);
    lemma_replace_single(rest, '\\', '/');
    let conv = text::spec_replace(rest, seq!['\\'], seq!['/']);
    let w = wsl_prefix() + seq![spec_lower_drive(p[0])] + conv;
    assert(spec_to_wsl(p) == w);
    assert(w.len() >= 7);
    assert(w.take(5) =~= wsl_prefix());
    assert(text::spec_starts_with(w, wsl_prefix()));
    assert(w.skip(6) =~= conv);
    lemma_replace_single(conv, '/', '\\');
    let back = text::spec_replace(conv, seq!['/'], seq!['\\']);
    assert forall|i: int| 0 <= i < back.len() implies back[i] == rest[i] by {
        assert(conv[i] == (if rest[i] == '\\' {
            '/'
        } else {
            rest[i]
        }));
        assert(rest[i] == p[2 + i]);
        assert(p[2 + i] != '/');
    }
    assert(back =~= rest);
    assert(w[5] == spec_lower_drive(p[0]));
    assert(spec_upper_drive(spec_lower_drive(p[0])) == p[0]);
    let result = seq![spec_upper_drive(w[5]), ':'] + back;
    assert(spec_to_windows(w) == result);
    assert(result =~= p);
}

} // verus!
