use crate::error::IpcError;
use crate::kind::{kind_named, MessageKind};
use vstd::prelude::*;
use vstd::string::*;

verus! {

/// The settings a producer's arguments can give.
#[derive(Clone, Copy, Debug, PartialEq, Eq, Structural)]
pub enum ArgKey {
    /// `--ipc-path`: the mailbox directory.
    IpcPath,
    /// `--type`: the message kind.
    Type,
    /// `--payload`: the message text, `-` for standard input, or for raw
    /// messages the path of the file to attach.
    Payload,
}

/// The setting an argument key names.
pub open spec fn key_named(k: Seq<char>) -> Option<ArgKey> {
    if k == "ipc-path"@ {
        Some(ArgKey::IpcPath)
    } else if k == "type"@ {
        Some(ArgKey::Type)
    } else if k == "payload"@ {
        Some(ArgKey::Payload)
    } else {
        None
    }
}

/// The index of the first `=` among the first `n` characters of `a`, or -1.
pub open spec fn first_eq(a: Seq<char>, n: nat) -> int
    decreases n,
{
    if n == 0 {
        -1
    } else if first_eq(a, (n - 1) as nat) >= 0 {
        first_eq(a, (n - 1) as nat)
    } else if a[n - 1] == '=' {
        n - 1
    } else {
        -1
    }
}

/// An argument `--key=value`: split at its first `=`, the key stripped of
/// its leading `--` and a known setting.
pub open spec fn parse_arg(a: Seq<char>) -> Option<(ArgKey, Seq<char>)> {
    let i = first_eq(a, a.len());
    if i < 0 {
        None
    } else {
        let key = a.subrange(0, i);
        let value = a.subrange(i + 1, a.len() as int);
        if key.len() >= 2 && key[0] == '-' && key[1] == '-' {
            match key_named(key.subrange(2, key.len() as int)) {
                Some(k) => Some((k, value)),
                None => None,
            }
        } else {
            None
        }
    }
}

/// The settings given by `args`, or `None` where one of them is malformed
/// or a setting is given twice.
pub open spec fn ingest(args: Seq<Seq<char>>) -> Option<Map<ArgKey, Seq<char>>>
    decreases args.len(),
{
    if args.len() == 0 {
        Some(Map::empty())
    } else {
        match ingest(args.drop_last()) {
            None => None,
            Some(m) => match parse_arg(args.last()) {
                None => None,
                Some((k, v)) => if m.contains_key(k) {
                    None
                } else {
                    Some(m.insert(k, v))
                },
            },
        }
    }
}

/// The arguments after the program's name.
pub open spec fn operands(args: Seq<String>) -> Seq<Seq<char>> {
    if args.len() == 0 {
        Seq::empty()
    } else {
        args.drop_first().map_values(|s: String| s@)
    }
}

/// The value of setting `k` in `m`, or `default`.
pub open spec fn value_or(m: Map<ArgKey, Seq<char>>, k: ArgKey, default: Seq<char>) -> Seq<char> {
    if m.contains_key(k) {
        m[k]
    } else {
        default
    }
}

/// The settings given so far.
struct ArgMap {
    ipc_path: Option<String>,
    type_: Option<String>,
    payload: Option<String>,
}

impl ArgMap {
    spec fn view(&self) -> Map<ArgKey, Seq<char>> {
        let m0 = Map::<ArgKey, Seq<char>>::empty();
        let m1 = match self.ipc_path {
            Some(v) => m0.insert(ArgKey::IpcPath, v@),
            None => m0,
        };
        let m2 = match self.type_ {
            Some(v) => m1.insert(ArgKey::Type, v@),
            None => m1,
        };
        match self.payload {
            Some(v) => m2.insert(ArgKey::Payload, v@),
            None => m2,
        }
    }

    fn get_or(&self, k: ArgKey, default: &str) -> (r: String)
        ensures
            r@ == value_or(self.view(), k, default@),
    {
        let slot = match k {
            ArgKey::IpcPath => &self.ipc_path,
            ArgKey::Type => &self.type_,
            ArgKey::Payload => &self.payload,
        };
        match slot {
            Some(v) => v.clone(),
            None => String::from_str(default),
        }
    }
}

fn same_str(a: &str, b: &str) -> (r: bool)
    ensures
        r == (a@ == b@),
{
    String::from_str(a) == String::from_str(b)
}

fn key_of(k: &str) -> (r: Option<ArgKey>)
    ensures
        r == key_named(k@),
{
    if same_str(k, "ipc-path") {
        Some(ArgKey::IpcPath)
    } else if same_str(k, "type") {
        Some(ArgKey::Type)
    } else if same_str(k, "payload") {
        Some(ArgKey::Payload)
    } else {
        None
    }
}

fn find_eq(a: &str) -> (r: Option<usize>)
    ensures
        match r {
            Some(i) => i as int == first_eq(a@, a@.len()) && i < a@.len(),
            None => first_eq(a@, a@.len()) < 0,
        },
{
    let n = a.unicode_len();
    let mut i: usize = 0;
    while i < n
        invariant
            n == a@.len(),
            i <= n,
            first_eq(a@, i as nat) < 0,
        decreases n - i,
    {
        if a.get_char(i) == '=' {
            proof {
                lemma_first_eq_stays(a@, (i + 1) as nat, a@.len());
            }
            return Some(i);
        }
        i = i + 1;
    }
    None
}

proof fn lemma_first_eq_stays(a: Seq<char>, m: nat, n: nat)
    requires
        m <= n <= a.len(),
        m > 0,
        first_eq(a, m) >= 0,
    ensures
        first_eq(a, n) == first_eq(a, m),
    decreases n - m,
{
    if n > m {
        lemma_first_eq_stays(a, m, (n - 1) as nat);
    }
}

/// Parses one argument `--key=value`.
fn split_arg(a: &str) -> (r: Option<(ArgKey, String)>)
    ensures
        match r {
            Some((k, v)) => parse_arg(a@) == Some((k, v@)),
            None => parse_arg(a@) is None,
        },
{
    let n = a.unicode_len();
    let i = match find_eq(a) {
        Some(i) => i,
        None => return None,
    };
    let key = a.substring_char(0, i);
    let value = a.substring_char(i + 1, n);
    let kn = key.unicode_len();
    if kn < 2 || key.get_char(0) != '-' || key.get_char(1) != '-' {
        return None;
    }
    match key_of(key.substring_char(2, kn)) {
        Some(k) => Some((k, String::from_str(value))),
        None => None,
    }
}

proof fn lemma_ingest_prefix_fails(args: Seq<Seq<char>>, j: nat)
    requires
        j <= args.len(),
        ingest(args.subrange(0, j as int)) is None,
    ensures
        ingest(args) is None,
    decreases args.len() - j,
{
    if j < args.len() {
        assert(args.subrange(0, (j + 1) as int).drop_last() =~= args.subrange(0, j as int));
        lemma_ingest_prefix_fails(args, (j + 1) as nat);
    } else {
        assert(args.subrange(0, j as int) =~= args);
    }
}

/// The producer's arguments, digested.
#[derive(Debug, Clone)]
pub struct Argv {
    /// The path to the mailbox directory.
    pub ipc_path: String,
    /// The message kind.
    pub kind: MessageKind,
    /// The message payload.
    pub payload: String,
}

impl Argv {
    /// The mailbox directory used when none is given.
    pub open spec fn default_ipc_path() -> Seq<char> {
        "/var/run/sendmatrix"@
    }

    /// Digests the program's arguments, its name first. Each further
    /// argument is `--ipc-path=`, `--type=` or `--payload=` with a value,
    /// each at most once; the defaults are `/var/run/sendmatrix`, `plaintext`
    /// and `-`.
    pub fn load(args: Vec<String>) -> (r: Result<Argv, IpcError>)
        ensures
            match ingest(operands(args@)) {
                None => r == Err::<Argv, IpcError>(IpcError::InvalidInput),
                Some(m) => match kind_named(value_or(m, ArgKey::Type, "plaintext"@)) {
                    None => r == Err::<Argv, IpcError>(IpcError::InvalidInput),
                    Some(k) => r matches Ok(a) && a.kind == k
                        && a.ipc_path@ == value_or(m, ArgKey::IpcPath, Self::default_ipc_path())
                        && a.payload@ == value_or(m, ArgKey::Payload, "-"@),
                },
            },
    {
        let argv = match Self::ingest_argv(&args) {
            Ok(a) => a,
            Err(e) => return Err(e),
        };
        let ipc_path = argv.get_or(ArgKey::IpcPath, "/var/run/sendmatrix");
        let type_ = argv.get_or(ArgKey::Type, "plaintext");
        let payload = argv.get_or(ArgKey::Payload, "-");
        match MessageKind::try_from(type_) {
            Ok(kind) => Ok(Argv { ipc_path, kind, payload }),
            Err(e) => Err(e),
        }
    }

    /// Collects the settings of all arguments after the program's name.
    fn ingest_argv(args: &Vec<String>) -> (r: Result<ArgMap, IpcError>)
        ensures
            match ingest(operands(args@)) {
                None => r == Err::<ArgMap, IpcError>(IpcError::InvalidInput),
                Some(m) => r matches Ok(a) && a.view() == m,
            },
    {
        let mut map = ArgMap { ipc_path: None, type_: None, payload: None };
        if args.len() == 0 {
            assert(map.view() =~= Map::<ArgKey, Seq<char>>::empty());
            return Ok(map);
        }
        let ghost ops = operands(args@);
        let mut i: usize = 1;
        assert(map.view() =~= Map::<ArgKey, Seq<char>>::empty());
        assert(ops.subrange(0, 0) =~= Seq::<Seq<char>>::empty());
        while i < args.len()
            invariant
                1 <= i <= args@.len(),
                ops == operands(args@),
                ops.len() == args@.len() - 1,
                ingest(ops.subrange(0, i - 1)) == Some(map.view()),
            decreases args@.len() - i,
        {
            let ghost before = map.view();
            assert(ops.subrange(0, i as int).drop_last() =~= ops.subrange(0, i - 1));
            assert(ops.subrange(0, i as int).last() == args@[i as int]@);
            let (k, v) = match split_arg(args[i].as_str()) {
                Some(p) => p,
                None => {
                    proof {
                        lemma_ingest_prefix_fails(ops, i as nat);
                    }
                    return Err(IpcError::InvalidInput);
                },
            };
            proof {
                if before.contains_key(k) {
                    lemma_ingest_prefix_fails(ops, i as nat);
                }
            }
            match k {
                ArgKey::IpcPath => {
                    if map.ipc_path.is_some() {
                        return Err(IpcError::InvalidInput);
                    }
                    map.ipc_path = Some(v);
                },
                ArgKey::Type => {
                    if map.type_.is_some() {
                        return Err(IpcError::InvalidInput);
                    }
                    map.type_ = Some(v);
                },
                ArgKey::Payload => {
                    if map.payload.is_some() {
                        return Err(IpcError::InvalidInput);
                    }
                    map.payload = Some(v);
                },
            }
            assert(map.view() =~= before.insert(k, v@));
            i = i + 1;
        }
        assert(ops.subrange(0, ops.len() as int) =~= ops);
        Ok(map)
    }
}

} // verus!
