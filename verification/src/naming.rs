//! Naming rules: directory-name sanitization, repository names derived
//! from clone URLs, the fixed city list that auto-names workspaces, and the
//! rendering of external commands for error messages.

use vstd::prelude::*;

use crate::strutil::{
    char_is_ws, is_ws, lower_char, push_char, spec_lower_char, str_eq, str_trim_ws, trim_ws,
};

verus! {

/// Whether a character survives sanitization unchanged (lower-cased).
pub open spec fn sdn_keep(c: char) -> bool {
    ('a' <= c && c <= 'z') || ('A' <= c && c <= 'Z') || ('0' <= c && c <= '9') || c == '-' || c
        == '_' || c == '.'
}

/// What one character contributes to a sanitized name: itself lower-cased,
/// a dash for white space, nothing otherwise.
pub open spec fn sdn_map(c: char) -> Seq<char> {
    if sdn_keep(c) {
        seq![spec_lower_char(c)]
    } else if is_ws(c) {
        seq!['-']
    } else {
        Seq::empty()
    }
}

/// The sanitized body of a name, before dashes are trimmed.
pub open spec fn sdn_fold(s: Seq<char>) -> Seq<char>
    decreases s.len(),
{
    if s.len() == 0 {
        Seq::empty()
    } else {
        sdn_fold(s.subrange(0, s.len() - 1)) + sdn_map(s[s.len() - 1])
    }
}

/// `s` without leading and trailing dashes.
pub open spec fn trim_dashes(s: Seq<char>) -> Seq<char> {
    if exists|i: int| 0 <= i < s.len() && s[i] != '-' {
        let lo = choose|i: int|
            0 <= i < s.len() && s[i] != '-' && forall|j: int| 0 <= j < i ==> s[j] == '-';
        let hi = choose|i: int|
            0 <= i < s.len() && s[i] != '-' && forall|j: int| i < j < s.len() ==> s[j] == '-';
        s.subrange(lo, hi + 1)
    } else {
        Seq::empty()
    }
}

/// A directory-safe name: ASCII alphanumerics and `-`, `_`, `.` survive
/// lower-cased, white space collapses to dashes, everything else is
/// dropped; dashes are trimmed from both ends; an empty result falls back
/// to `repo`.
pub open spec fn spec_safe_dir_name(s: Seq<char>) -> Seq<char> {
    let t = trim_dashes(sdn_fold(trim_ws(s)));
    if t.len() == 0 {
        "repo"@
    } else {
        t
    }
}

/// Maps each character of `t` through `sdn_map`.
#[verifier::loop_isolation(false)]
fn sdn_body(t: &str) -> (out: String)
    ensures
        out@ == sdn_fold(t@),
{
    let len = t.unicode_len();
    let mut out = String::new();
    let mut i: usize = 0;
    proof {
        assert(t@.subrange(0, 0) =~= Seq::<char>::empty());
        assert(out@ =~= sdn_fold(t@.subrange(0, 0)));
    }
    while i < len
        invariant
            len == t@.len(),
            0 <= i <= len,
            out@ == sdn_fold(t@.subrange(0, i as int)),
        decreases len - i,
    {
        let c = t.get_char(i);
        let keep = ('a' <= c && c <= 'z') || ('A' <= c && c <= 'Z') || ('0' <= c && c <= '9')
            || c == '-' || c == '_' || c == '.';
        if keep {
            push_char(&mut out, lower_char(c));
        } else if char_is_ws(c) {
            push_char(&mut out, '-');
        }
        proof {
            assert(t@.subrange(0, i + 1).subrange(0, i as int) =~= t@.subrange(0, i as int));
            assert(t@.subrange(0, i + 1)[i as int] == t@[i as int]);
            assert(out@ =~= sdn_fold(t@.subrange(0, i + 1)));
        }
        i += 1;
    }
    proof {
        assert(t@.subrange(0, len as int) =~= t@);
    }
    out
}

/// Trims dashes from both ends of `s`.
#[verifier::loop_isolation(false)]
fn do_trim_dashes(s: &str) -> (r: String)
    ensures
        r@ == trim_dashes(s@),
{
    let olen = s.unicode_len();
    let mut lo: usize = 0;
    while lo < olen && s.get_char(lo) == '-'
        invariant
            olen == s@.len(),
            0 <= lo <= olen,
            forall|j: int| 0 <= j < lo ==> s@[j] == '-',
        decreases olen - lo,
    {
        lo += 1;
    }
    if lo == olen {
        proof {
            assert(!(exists|i: int| 0 <= i < s@.len() && s@[i] != '-'));
        }
        return String::new();
    }
    let mut hi: usize = olen - 1;
    while hi > lo && s.get_char(hi) == '-'
        invariant
            olen == s@.len(),
            lo <= hi < olen,
            s@[lo as int] != '-',
            forall|j: int| hi < j < olen ==> s@[j] == '-',
        decreases hi,
    {
        hi -= 1;
    }
    proof {
        let wlo = choose|i: int|
            0 <= i < s@.len() && s@[i] != '-' && forall|j: int| 0 <= j < i ==> s@[j] == '-';
        let whi = choose|i: int|
            0 <= i < s@.len() && s@[i] != '-' && forall|j: int|
                i < j < s@.len() ==> s@[j] == '-';
        assert(wlo == lo as int);
        assert(whi == hi as int);
    }
    s.substring_char(lo, hi + 1).to_owned()
}

/// Sanitizes a name for use as a directory name.
pub fn safe_dir_name(name: &str) -> (r: String)
    ensures
        r@ == spec_safe_dir_name(name@),
{
    let trimmed = str_trim_ws(name);
    let body = sdn_body(trimmed.as_str());
    let t = do_trim_dashes(body.as_str());
    if t.as_str().unicode_len() == 0 {
        "repo".to_owned()
    } else {
        t
    }
}

/// `s` without its trailing run of `c`.
pub open spec fn trim_end_char(s: Seq<char>, c: char) -> Seq<char> {
    if exists|i: int| 0 <= i < s.len() && s[i] != c {
        let hi = choose|i: int|
            0 <= i < s.len() && s[i] != c && forall|j: int| i < j < s.len() ==> s[j] == c;
        s.subrange(0, hi + 1)
    } else {
        Seq::empty()
    }
}

/// What follows the last `c` in `s`; all of `s` when it has none.
pub open spec fn tail_after_last(s: Seq<char>, c: char) -> Seq<char> {
    if exists|i: int| 0 <= i < s.len() && s[i] == c {
        let i = choose|i: int|
            0 <= i < s.len() && s[i] == c && forall|j: int| i < j < s.len() ==> s[j] != c;
        s.subrange(i + 1, s.len() as int)
    } else {
        s
    }
}

/// `s` without one trailing `.git`.
pub open spec fn strip_dot_git(s: Seq<char>) -> Seq<char> {
    if s.len() >= 4 && s.subrange(s.len() - 4, s.len() as int) == ".git"@ {
        s.subrange(0, s.len() - 4)
    } else {
        s
    }
}

/// The repository name a clone URL suggests: the last path segment, without
/// trailing slashes, a host prefix, or a `.git` suffix; `repo` when nothing
/// is left.
pub open spec fn spec_repo_name_from_url(u: Seq<char>) -> Seq<char> {
    let t1 = trim_end_char(trim_ws(u), '/');
    let t2 = tail_after_last(t1, '/');
    let t3 = tail_after_last(t2, ':');
    let t4 = trim_ws(strip_dot_git(t3));
    if t4.len() == 0 {
        "repo"@
    } else {
        t4
    }
}

/// Trims a trailing run of `c` from `s`.
#[verifier::loop_isolation(false)]
fn do_trim_end_char(s: &str, c: char) -> (r: String)
    ensures
        r@ == trim_end_char(s@, c),
{
    let len = s.unicode_len();
    let mut hi: usize = len;
    while hi > 0 && s.get_char(hi - 1) == c
        invariant
            len == s@.len(),
            0 <= hi <= len,
            forall|j: int| hi <= j < len ==> s@[j] == c,
        decreases hi,
    {
        hi -= 1;
    }
    if hi == 0 {
        proof {
            assert(!(exists|i: int| 0 <= i < s@.len() && s@[i] != c));
        }
        return String::new();
    }
    proof {
        let w = choose|i: int|
            0 <= i < s@.len() && s@[i] != c && forall|j: int| i < j < s@.len() ==> s@[j] == c;
        assert(s@[hi - 1] != c);
        assert(w == hi - 1);
    }
    s.substring_char(0, hi).to_owned()
}

/// Returns what follows the last `c` in `s`.
#[verifier::loop_isolation(false)]
fn do_tail_after_last(s: &str, c: char) -> (r: String)
    ensures
        r@ == tail_after_last(s@, c),
{
    let len = s.unicode_len();
    let mut hi: usize = len;
    while hi > 0 && s.get_char(hi - 1) != c
        invariant
            len == s@.len(),
            0 <= hi <= len,
            forall|j: int| hi <= j < len ==> s@[j] != c,
        decreases hi,
    {
        hi -= 1;
    }
    if hi == 0 {
        proof {
            assert(!(exists|i: int| 0 <= i < s@.len() && s@[i] == c));
            assert(s@.subrange(0, len as int) =~= s@);
        }
        return s.to_owned();
    }
    proof {
        let w = choose|i: int|
            0 <= i < s@.len() && s@[i] == c && forall|j: int| i < j < s@.len() ==> s@[j] != c;
        assert(s@[hi - 1] == c);
        assert(w == hi - 1);
    }
    s.substring_char(hi, len).to_owned()
}

/// The last `/`-separated segment of a name.
pub fn last_segment(s: &str) -> (r: String)
    ensures
        r@ == tail_after_last(s@, '/'),
{
    do_tail_after_last(s, '/')
}

/// Derives a repository name from a clone URL.
pub fn repo_name_from_url(url: &str) -> (r: String)
    ensures
        r@ == spec_repo_name_from_url(url@),
{
    let t0 = str_trim_ws(url);
    let t1 = do_trim_end_char(t0.as_str(), '/');
    let t2 = do_tail_after_last(t1.as_str(), '/');
    let t3 = do_tail_after_last(t2.as_str(), ':');
    let len = t3.as_str().unicode_len();
    let t3g: String = if len >= 4 && str_eq(t3.as_str().substring_char(len - 4, len), ".git") {
        t3.as_str().substring_char(0, len - 4).to_owned()
    } else {
        t3
    };
    let t4 = str_trim_ws(t3g.as_str());
    if t4.as_str().unicode_len() == 0 {
        "repo".to_owned()
    } else {
        t4
    }
}

/// The fixed list of city tokens that auto-names workspaces.
pub open spec fn spec_cities() -> Seq<Seq<char>> {
    seq![
        "almaty"@,
        "amsterdam"@,
        "anchorage"@,
        "athens"@,
        "auckland"@,
        "bandung"@,
        "bangkok"@,
        "barcelona"@,
        "belfast"@,
        "berlin"@,
        "bogota"@,
        "boston"@,
        "brasilia"@,
        "brisbane"@,
        "brussels"@,
        "bucharest"@,
        "budapest"@,
        "buenos-aires"@,
        "cairo"@,
        "calgary"@,
        "capetown"@,
        "caracas"@,
        "chicago"@,
        "copenhagen"@,
        "dakar"@,
        "delhi"@,
        "denver"@,
        "dubai"@,
        "dublin"@,
        "edmonton"@,
        "florence"@,
        "frankfurt"@,
        "geneva"@,
        "hanoi"@,
        "helsinki"@,
        "hong-kong"@,
        "honolulu"@,
        "houston"@,
        "istanbul"@,
        "jakarta"@,
        "johannesburg"@,
        "kathmandu"@,
        "kyoto"@,
        "lahore"@,
        "lima"@,
        "lisbon"@,
        "london"@,
        "los-angeles"@,
        "madrid"@,
        "managua"@,
        "manila"@,
        "melbourne"@,
        "mexico-city"@,
        "miami"@,
        "milan"@,
        "minneapolis"@,
        "montreal"@,
        "mumbai"@,
        "munich"@,
        "nairobi"@,
        "osaka"@,
        "oslo"@,
        "ottawa"@,
        "paris"@,
        "perth"@,
        "porto"@,
        "prague"@,
        "reykjavik"@,
        "riga"@,
        "rio"@,
        "rome"@,
        "seattle"@,
        "seoul"@,
        "shanghai"@,
        "singapore"@,
        "stockholm"@,
        "sydney"@,
        "taipei"@,
        "tehran"@,
        "tokyo"@,
        "toronto"@,
        "valencia"@,
        "vancouver"@,
        "venice"@,
        "vienna"@,
        "victoria"@,
        "warsaw"@,
        "wellington"@,
        "zurich"@
    ]
}

/// Builds the city list.
pub fn cities() -> (r: Vec<&'static str>)
    ensures
        r.deep_view() == spec_cities(),
{
    let mut out: Vec<&'static str> = Vec::new();
    out.push("almaty");
    out.push("amsterdam");
    out.push("anchorage");
    out.push("athens");
    out.push("auckland");
    out.push("bandung");
    out.push("bangkok");
    out.push("barcelona");
    out.push("belfast");
    out.push("berlin");
    out.push("bogota");
    out.push("boston");
    out.push("brasilia");
    out.push("brisbane");
    out.push("brussels");
    out.push("bucharest");
    out.push("budapest");
    out.push("buenos-aires");
    out.push("cairo");
    out.push("calgary");
    out.push("capetown");
    out.push("caracas");
    out.push("chicago");
    out.push("copenhagen");
    out.push("dakar");
    out.push("delhi");
    out.push("denver");
    out.push("dubai");
    out.push("dublin");
    out.push("edmonton");
    out.push("florence");
    out.push("frankfurt");
    out.push("geneva");
    out.push("hanoi");
    out.push("helsinki");
    out.push("hong-kong");
    out.push("honolulu");
    out.push("houston");
    out.push("istanbul");
    out.push("jakarta");
    out.push("johannesburg");
    out.push("kathmandu");
    out.push("kyoto");
    out.push("lahore");
    out.push("lima");
    out.push("lisbon");
    out.push("london");
    out.push("los-angeles");
    out.push("madrid");
    out.push("managua");
    out.push("manila");
    out.push("melbourne");
    out.push("mexico-city");
    out.push("miami");
    out.push("milan");
    out.push("minneapolis");
    out.push("montreal");
    out.push("mumbai");
    out.push("munich");
    out.push("nairobi");
    out.push("osaka");
    out.push("oslo");
    out.push("ottawa");
    out.push("paris");
    out.push("perth");
    out.push("porto");
    out.push("prague");
    out.push("reykjavik");
    out.push("riga");
    out.push("rio");
    out.push("rome");
    out.push("seattle");
    out.push("seoul");
    out.push("shanghai");
    out.push("singapore");
    out.push("stockholm");
    out.push("sydney");
    out.push("taipei");
    out.push("tehran");
    out.push("tokyo");
    out.push("toronto");
    out.push("valencia");
    out.push("vancouver");
    out.push("venice");
    out.push("vienna");
    out.push("victoria");
    out.push("warsaw");
    out.push("wellington");
    out.push("zurich");
    proof {
        assert(out.deep_view() =~= spec_cities());
    }
    out
}

/// A command line as shown in error messages: the program followed by its
/// arguments, space-separated.
pub open spec fn args_concat(args: Seq<Seq<char>>) -> Seq<char>
    decreases args.len(),
{
    if args.len() == 0 {
        Seq::empty()
    } else {
        args_concat(args.subrange(0, args.len() - 1)) + seq![' '] + args[args.len() - 1]
    }
}

/// The display form of a command: program and arguments, space-separated.
pub open spec fn spec_format_command(cmd: Seq<char>, args: Seq<Seq<char>>) -> Seq<char> {
    cmd + args_concat(args)
}

/// Renders a command and its arguments for display.
#[verifier::loop_isolation(false)]
pub fn format_command(cmd: &str, args: &Vec<String>) -> (r: String)
    ensures
        r@ == spec_format_command(cmd@, args.deep_view()),
{
    let mut out = cmd.to_owned();
    let mut i: usize = 0;
    proof {
        assert(args.deep_view().subrange(0, 0) =~= Seq::<Seq<char>>::empty());
        assert(out@ =~= cmd@ + args_concat(args.deep_view().subrange(0, 0)));
    }
    while i < args.len()
        invariant
            0 <= i <= args@.len(),
            out@ == cmd@ + args_concat(args.deep_view().subrange(0, i as int)),
        decreases args@.len() - i,
    {
        push_char(&mut out, ' ');
        out.append(args[i].as_str());
        proof {
            let dv = args.deep_view();
            assert(dv.subrange(0, i + 1).subrange(0, i as int) =~= dv.subrange(0, i as int));
            assert(dv.subrange(0, i + 1)[i as int] == dv[i as int]);
            assert(dv[i as int] == args@[i as int]@);
            assert(out@ =~= cmd@ + args_concat(dv.subrange(0, i + 1)));
        }
        i += 1;
    }
    proof {
        assert(args.deep_view().subrange(0, args@.len() as int) =~= args.deep_view());
    }
    out
}

/// The message of a failed command: its trimmed standard error, else its
/// trimmed standard output, else a fixed phrase.
pub open spec fn spec_command_error_message(stderr: Seq<char>, stdout: Seq<char>) -> Seq<char> {
    let e = trim_ws(stderr);
    let o = trim_ws(stdout);
    if e.len() > 0 {
        e
    } else if o.len() > 0 {
        o
    } else {
        "command failed"@
    }
}

/// Chooses the message of a failed command from its two output streams.
pub fn command_error_message(stderr: &str, stdout: &str) -> (r: String)
    ensures
        r@ == spec_command_error_message(stderr@, stdout@),
{
    let e = str_trim_ws(stderr);
    if e.as_str().unicode_len() > 0 {
        return e;
    }
    let o = str_trim_ws(stdout);
    if o.as_str().unicode_len() > 0 {
        return o;
    }
    "command failed".to_owned()
}

/// Whether `v` holds a string with the characters of `s`.
pub fn contains_str(v: &Vec<String>, s: &str) -> (r: bool)
    ensures
        r == v.deep_view().contains(s@),
{
    let mut i: usize = 0;
    while i < v.len()
        invariant
            0 <= i <= v@.len(),
            forall|j: int| 0 <= j < i ==> v.deep_view()[j] != s@,
        decreases v@.len() - i,
    {
        if str_eq(v[i].as_str(), s) {
            proof {
                assert(v.deep_view()[i as int] == s@);
            }
            return true;
        }
        i += 1;
    }
    proof {
        assert(forall|j: int| 0 <= j < v.deep_view().len() ==> v.deep_view()[j] != s@);
    }
    false
}

} // verus!
