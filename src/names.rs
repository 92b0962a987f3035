use crate::kind::MessageKind;
use vstd::prelude::*;
use vstd::string::*;
use vstd::utf8::is_ascii_chars;

verus! {

/// The largest payload of a plaintext or markdown entry, in bytes.
pub const TEXT_SIZE_MAX: usize = 4096;

/// The largest payload of a raw entry, in bytes.
pub const FILE_SIZE_MAX: usize = 2097152;

/// The suffix of a file that is still being written.
pub open spec fn temp_ext() -> Seq<char> {
    "tmp"@
}

/// The extension under which a message of kind `k` is published.
pub open spec fn ext_of(k: MessageKind) -> Seq<char> {
    match k {
        MessageKind::Plaintext => "txt"@,
        MessageKind::Markdown => "markdown"@,
        MessageKind::Raw => "raw"@,
    }
}

/// The size bound of an entry of kind `k`.
pub open spec fn limit_of(k: MessageKind) -> nat {
    match k {
        MessageKind::Plaintext | MessageKind::Markdown => TEXT_SIZE_MAX as nat,
        MessageKind::Raw => FILE_SIZE_MAX as nat,
    }
}

/// The code of `c` with ASCII upper case folded to lower case.
pub open spec fn lower(c: char) -> u32 {
    if 'A' <= c && c <= 'Z' {
        ((c as u32) + 32) as u32
    } else {
        c as u32
    }
}

/// ASCII case-insensitive equality.
pub open spec fn same_ignoring_case(a: Seq<char>, b: Seq<char>) -> bool {
    &&& a.len() == b.len()
    &&& forall|i: int| 0 <= i < a.len() ==> lower(#[trigger] a[i]) == lower(b[i])
}

/// The index of the last `.` among the first `n` characters of `s`, or -1.
pub open spec fn last_dot(s: Seq<char>, n: nat) -> int
    decreases n,
{
    if n == 0 {
        -1
    } else if s[n - 1] == '.' {
        n - 1
    } else {
        last_dot(s, (n - 1) as nat)
    }
}

/// The extension of a file name: what follows its last `.`, provided that
/// something precedes that dot.
pub open spec fn extension(name: Seq<char>) -> Option<Seq<char>> {
    let i = last_dot(name, name.len());
    if i <= 0 {
        None
    } else {
        Some(name.subrange(i + 1, name.len() as int))
    }
}

/// The kind of a mailbox member by its file name: ASCII names whose extension
/// is `txt`, `markdown` or `raw` in any case; every other name is ignored.
pub open spec fn kind_of_name(name: Seq<char>) -> Option<MessageKind> {
    if !is_ascii_chars(name) {
        None
    } else {
        match extension(name) {
            Some(e) => if same_ignoring_case(e, "txt"@) {
                Some(MessageKind::Plaintext)
            } else if same_ignoring_case(e, "markdown"@) {
                Some(MessageKind::Markdown)
            } else if same_ignoring_case(e, "raw"@) {
                Some(MessageKind::Raw)
            } else {
                None
            },
            None => None,
        }
    }
}

/// The path of the member `name` of directory `dir`.
pub open spec fn joined(dir: Seq<char>, name: Seq<char>) -> Seq<char> {
    if dir.len() == 0 {
        name
    } else if dir.last() == '/' {
        dir + name
    } else {
        dir + "/"@ + name
    }
}

fn lower_exec(c: char) -> (r: u32)
    ensures
        r == lower(c),
{
    if 'A' <= c && c <= 'Z' {
        (c as u32) + 32
    } else {
        c as u32
    }
}

/// Compares two strings, ASCII case-insensitively.
pub fn eq_ignore_ascii_case(a: &str, b: &str) -> (r: bool)
    ensures
        r == same_ignoring_case(a@, b@),
{
    let n = a.unicode_len();
    if n != b.unicode_len() {
        return false;
    }
    let mut i: usize = 0;
    while i < n
        invariant
            n == a@.len() == b@.len(),
            i <= n,
            forall|j: int| 0 <= j < i ==> lower(#[trigger] a@[j]) == lower(b@[j]),
        decreases n - i,
    {
        if lower_exec(a.get_char(i)) != lower_exec(b.get_char(i)) {
            return false;
        }
        i = i + 1;
    }
    true
}

/// Finds the last `.` of `s`.
fn find_last_dot(s: &str) -> (r: Option<usize>)
    ensures
        match r {
            Some(i) => i as int == last_dot(s@, s@.len()),
            None => last_dot(s@, s@.len()) == -1,
        },
{
    let mut n = s.unicode_len();
    while n > 0
        invariant
            n <= s@.len(),
            last_dot(s@, s@.len()) == last_dot(s@, n as nat),
        decreases n,
    {
        if s.get_char(n - 1) == '.' {
            return Some(n - 1);
        }
        n = n - 1;
    }
    None
}

/// The kind of the mailbox member named `name`, or `None` where the protocol
/// ignores it.
pub fn classify(name: &str) -> (r: Option<MessageKind>)
    ensures
        r == kind_of_name(name@),
{
    if !name.is_ascii() {
        return None;
    }
    let n = name.unicode_len();
    match find_last_dot(name) {
        None => None,
        Some(i) => {
            if i == 0 {
                return None;
            }
            proof {
                lemma_last_dot_bound(name@, name@.len());
            }
            let e = name.substring_char(i + 1, n);
            if eq_ignore_ascii_case(e, "txt") {
                Some(MessageKind::Plaintext)
            } else if eq_ignore_ascii_case(e, "markdown") {
                Some(MessageKind::Markdown)
            } else if eq_ignore_ascii_case(e, "raw") {
                Some(MessageKind::Raw)
            } else {
                None
            }
        },
    }
}

pub proof fn lemma_last_dot_bound(s: Seq<char>, n: nat)
    requires
        n <= s.len(),
    ensures
        -1 <= last_dot(s, n) < n,
        last_dot(s, n) >= 0 ==> s[last_dot(s, n)] == '.',
    decreases n,
{
    if n > 0 && s[n - 1] != '.' {
        lemma_last_dot_bound(s, (n - 1) as nat);
    }
}

/// In `a.e`, where `e` holds no dot, the last dot is the one after `a`.
pub proof fn lemma_last_dot_split(a: Seq<char>, e: Seq<char>, n: nat)
    requires
        forall|k: int| 0 <= k < e.len() ==> e[k] != '.',
        a.len() < n <= a.len() + 1 + e.len(),
    ensures
        last_dot(a + "."@ + e, n) == a.len(),
    decreases n,
{
    reveal_strlit(".");
    let s = a + "."@ + e;
    if n > a.len() + 1 {
        assert(s[n - 1] == e[n - 2 - a.len()]);
        lemma_last_dot_split(a, e, (n - 1) as nat);
    } else {
        assert(s[n - 1] == '.');
    }
}

/// Distinct names give distinct paths in one directory.
pub proof fn lemma_joined_injective(dir: Seq<char>, x: Seq<char>, y: Seq<char>)
    requires
        joined(dir, x) == joined(dir, y),
    ensures
        x == y,
{
    let p = if dir.len() == 0 {
        Seq::<char>::empty()
    } else if dir.last() == '/' {
        dir
    } else {
        dir + "/"@
    };
    assert(joined(dir, x) =~= p + x);
    assert(joined(dir, y) =~= p + y);
    assert(x =~= (p + x).subrange(p.len() as int, (p + x).len() as int));
    assert(y =~= (p + y).subrange(p.len() as int, (p + y).len() as int));
}

/// The path of the member `name` of directory `dir`.
pub fn join_path(dir: &str, name: &str) -> (r: String)
    ensures
        r@ == joined(dir@, name@),
{
    let mut r = String::from_str(dir);
    let n = dir.unicode_len();
    if n > 0 && dir.get_char(n - 1) != '/' {
        r.append("/");
    }
    r.append(name);
    r
}

} // verus!
