use crate::error::{error_of_failure, from_failure, IoFailure, IpcError};
use crate::ident::{format_id, id_token, lemma_id_token_injective, lemma_id_token_plain, uuidgen};
use crate::kind::MessageKind;
use crate::message::{decodes_to, oversized, Message};
use crate::names::{
    ext_of, join_path, joined, kind_of_name, lemma_joined_injective, lemma_last_dot_split, limit_of, lower,
};
use vstd::prelude::*;
use vstd::string::*;
use vstd::utf8::{encode_utf8, is_ascii_chars, valid_utf8};

verus! {

/// Relies on `std::str::from_utf8`: it accepts exactly the well-formed UTF-8
/// byte sequences.
#[verifier::external_body]
fn is_utf8(b: &[u8]) -> (r: bool)
    ensures
        r == valid_utf8(b@),
{
    std::str::from_utf8(b).is_ok()
}

/// The index of the last `/` among the first `n` characters of `p`, or -1.
pub open spec fn last_slash(p: Seq<char>, n: nat) -> int
    decreases n,
{
    if n == 0 {
        -1
    } else if p[n - 1] == '/' {
        n - 1
    } else {
        last_slash(p, (n - 1) as nat)
    }
}

/// The file name of a Unix path: its last part between slashes, where
/// trailing slashes and `.` parts are skipped; none where that part is `..`
/// or no part is left.
pub open spec fn path_file_name(p: Seq<char>) -> Option<Seq<char>>
    decreases p.len()
    via path_file_name_decreases
{
    if p.len() == 0 {
        None
    } else if p.last() == '/' {
        path_file_name(p.drop_last())
    } else {
        let i = last_slash(p, p.len());
        let part = p.subrange(i + 1, p.len() as int);
        if part == "."@ {
            if i < 0 {
                None
            } else {
                path_file_name(p.subrange(0, i))
            }
        } else if part == ".."@ {
            None
        } else {
            Some(part)
        }
    }
}

#[via_fn]
proof fn path_file_name_decreases(p: Seq<char>) {
    lemma_last_slash_bound(p, p.len());
}

/// A file name is never empty.
proof fn lemma_file_name_nonempty(p: Seq<char>)
    ensures
        path_file_name(p) matches Some(n) ==> n.len() > 0,
    decreases p.len(),
{
    if p.len() > 0 {
        if p.last() == '/' {
            lemma_file_name_nonempty(p.drop_last());
        } else {
            lemma_last_slash_bound(p, p.len());
            let i = last_slash(p, p.len());
            if i >= 0 && p.subrange(i + 1, p.len() as int) == "."@ {
                lemma_file_name_nonempty(p.subrange(0, i));
            }
        }
    }
}

proof fn lemma_last_slash_bound(p: Seq<char>, n: nat)
    requires
        n <= p.len(),
    ensures
        -1 <= last_slash(p, n) < n,
        last_slash(p, n) >= 0 ==> p[last_slash(p, n)] == '/',
    decreases n,
{
    if n > 0 && p[n - 1] != '/' {
        lemma_last_slash_bound(p, (n - 1) as nat);
    }
}

/// Relies on `std::path::Path::file_name` on Unix: the final component of
/// a path, where repeated separators and `.` components other than a leading
/// one are ignored; nothing where the path ends in `..` or has no normal
/// component.
#[verifier::external_body]
fn file_name(p: &str) -> (r: Option<String>)
    ensures
        r is None <==> path_file_name(p@) is None,
        r matches Some(n) ==> path_file_name(p@) == Some(n@),
{
    match std::path::Path::new(p).file_name() {
        Some(n) => Some(n.to_string_lossy().into_owned()),
        None => None,
    }
}

/// The name of a message's file while it is being written.
pub open spec fn temp_name_of(label: Seq<char>) -> Seq<char> {
    label + ".tmp"@
}

/// The name under which a message of kind `k` is published.
pub open spec fn final_name_of(label: Seq<char>, k: MessageKind) -> Seq<char> {
    label + "."@ + ext_of(k)
}

/// A message published under `label` is seen as of its kind, and its
/// temporary name is ignored.
pub proof fn lemma_published_names(label: Seq<char>, k: MessageKind)
    requires
        label.len() > 0,
        is_ascii_chars(label),
    ensures
        kind_of_name(final_name_of(label, k)) == Some(k),
        kind_of_name(temp_name_of(label)) is None,
{
    reveal_strlit(".");
    reveal_strlit("tmp");
    reveal_strlit(".tmp");
    reveal_strlit("txt");
    reveal_strlit("markdown");
    reveal_strlit("raw");
    let e = ext_of(k);
    let f = final_name_of(label, k);
    let t = label + "."@ + "tmp"@;
    assert(temp_name_of(label) =~= t);
    assert(forall|i: int| 0 <= i < e.len() ==> e[i] != '.');
    assert(forall|i: int| 0 <= i < "tmp"@.len() ==> "tmp"@[i] != '.');
    lemma_last_dot_split(label, e, f.len());
    lemma_last_dot_split(label, "tmp"@, t.len());
    assert(f.subrange(label.len() as int + 1, f.len() as int) =~= e);
    assert(t.subrange(label.len() as int + 1, t.len() as int) =~= "tmp"@);
    assert forall|i: int| 0 <= i < f.len() implies '\0' <= #[trigger] f[i] <= '\u{7f}' by {
        if i < label.len() {
            assert(f[i] == label[i]);
        }
    }
    assert(lower("raw"@[0]) != lower("txt"@[0]));
    assert(lower("tmp"@[1]) != lower("txt"@[1]));
    assert(lower("tmp"@[0]) != lower("raw"@[0]));
}

/// Where a publication stands.
#[derive(Clone, Copy, Debug, PartialEq, Eq, Structural)]
pub enum Step {
    /// The payload is to be read from standard input.
    ReadInput,
    /// The payload is to be written to the temporary file.
    WriteTemp,
    /// The source file is to be copied to the temporary file.
    CopyToTemp,
    /// The temporary file is to be linked under the final name.
    Link,
    /// The temporary name is to be removed.
    RemoveTemp,
    /// The message is published.
    Published,
    /// The publication failed with the given error after the temporary
    /// file may have been created: that file is to be removed first.
    Discard(IpcError),
    /// The publication failed.
    Failed(IpcError),
}

/// The filesystem operation a publication asks of its caller.
#[derive(Debug)]
pub enum PublishAction {
    /// Read all of standard input and report it as `PublishEvent::Input`.
    ReadInput,
    /// Create `path` holding exactly `data`.
    WriteTemp { path: String, data: Vec<u8> },
    /// Copy the file `source` to `path`.
    CopyToTemp { source: String, path: String },
    /// Make the file at `from` available under `to` by a hard link; this
    /// fails where `to` exists.
    Link { from: String, to: String },
    /// Remove the name `path`.
    RemoveTemp { path: String },
    /// Nothing is left to do: the message is published.
    Finished,
    /// Nothing is left to do: the publication failed.
    Abort(IpcError),
}

/// The outcome of the last action.
#[derive(Debug)]
pub enum PublishEvent {
    /// Standard input was read whole.
    Input(Vec<u8>),
    /// The operation succeeded.
    Done,
    /// The operation failed.
    Failed(IoFailure),
}

/// The step that follows `s` on event `e`. An event that does not answer the
/// step's action leaves the step as it is.
pub open spec fn next_step(s: Step, e: PublishEvent) -> Step {
    match (s, e) {
        (Step::Published, _) | (Step::Failed(_), _) => s,
        (Step::Discard(x), PublishEvent::Done) | (Step::Discard(x), PublishEvent::Failed(_)) => Step::Failed(x),
        (Step::WriteTemp, PublishEvent::Failed(f)) | (Step::CopyToTemp, PublishEvent::Failed(f)) | (
            Step::Link,
            PublishEvent::Failed(f),
        ) => Step::Discard(error_of_failure(f)),
        (_, PublishEvent::Failed(f)) => Step::Failed(error_of_failure(f)),
        (Step::ReadInput, PublishEvent::Input(b)) => if valid_utf8(b@) {
            Step::WriteTemp
        } else {
            Step::Failed(IpcError::EncodingFailure)
        },
        (Step::WriteTemp, PublishEvent::Done) | (Step::CopyToTemp, PublishEvent::Done) => Step::Link,
        (Step::Link, PublishEvent::Done) => Step::RemoveTemp,
        (Step::RemoveTemp, PublishEvent::Done) => Step::Published,
        _ => s,
    }
}

/// The payload held after event `e` in step `s`.
pub open spec fn next_data(s: Step, e: PublishEvent, data: Seq<u8>) -> Seq<u8> {
    if s is ReadInput && e is Input {
        e->Input_0@
    } else {
        data
    }
}

/// A publication in progress: a message goes into a mailbox directory under
/// a temporary name first and appears under its final name by one link.
#[derive(Debug)]
pub struct Publish {
    kind: MessageKind,
    dir: String,
    label: String,
    temp: String,
    dest: String,
    source: String,
    data: Vec<u8>,
    step: Step,
}

impl Publish {
    pub closed spec fn kind(&self) -> MessageKind {
        self.kind
    }

    /// The mailbox directory.
    pub closed spec fn dir(&self) -> Seq<char> {
        self.dir@
    }

    /// The identifier of the message: a token for text, the attachment's
    /// file name for raw messages.
    pub closed spec fn label(&self) -> Seq<char> {
        self.label@
    }

    /// The file a raw message is copied from.
    pub closed spec fn source(&self) -> Seq<char> {
        self.source@
    }

    /// The payload of a text message.
    pub closed spec fn data(&self) -> Seq<u8> {
        self.data@
    }

    pub closed spec fn step(&self) -> Step {
        self.step
    }

    pub open spec fn temp_name(&self) -> Seq<char> {
        temp_name_of(self.label())
    }

    pub open spec fn final_name(&self) -> Seq<char> {
        final_name_of(self.label(), self.kind())
    }

    pub open spec fn temp_path(&self) -> Seq<char> {
        joined(self.dir(), self.temp_name())
    }

    pub open spec fn final_path(&self) -> Seq<char> {
        joined(self.dir(), self.final_name())
    }

    pub closed spec fn wf(&self) -> bool {
        &&& self.label@.len() > 0
        &&& is_ascii_chars(self.label@)
        &&& self.temp@ == self.temp_path()
        &&& self.dest@ == self.final_path()
    }

    /// `a` is the action that step `step()` asks for.
    pub open spec fn expects(&self, a: PublishAction) -> bool {
        match self.step() {
            Step::ReadInput => a is ReadInput,
            Step::WriteTemp => a matches PublishAction::WriteTemp { path, data }
                && path@ == self.temp_path() && data@ == self.data(),
            Step::CopyToTemp => a matches PublishAction::CopyToTemp { source, path }
                && source@ == self.source() && path@ == self.temp_path(),
            Step::Link => a matches PublishAction::Link { from, to }
                && from@ == self.temp_path() && to@ == self.final_path(),
            Step::RemoveTemp | Step::Discard(_) => a matches PublishAction::RemoveTemp { path } && path@
                == self.temp_path(),
            Step::Published => a is Finished,
            Step::Failed(e) => a matches PublishAction::Abort(x) && x == e,
        }
    }

    /// The operation the caller is to perform next.
    pub fn next_action(&self) -> (r: PublishAction)
        requires
            self.wf(),
        ensures
            self.expects(r),
    {
        match self.step {
            Step::ReadInput => PublishAction::ReadInput,
            Step::WriteTemp => {
                let data = self.data.clone();
                assert(data@ =~= self.data@);
                PublishAction::WriteTemp { path: self.temp.clone(), data }
            },
            Step::CopyToTemp => PublishAction::CopyToTemp {
                source: self.source.clone(),
                path: self.temp.clone(),
            },
            Step::Link => PublishAction::Link { from: self.temp.clone(), to: self.dest.clone() },
            Step::RemoveTemp | Step::Discard(_) => PublishAction::RemoveTemp { path: self.temp.clone() },
            Step::Published => PublishAction::Finished,
            Step::Failed(e) => PublishAction::Abort(e),
        }
    }

    /// Takes in the outcome of the last action.
    pub fn advance(&mut self, event: PublishEvent)
        requires
            old(self).wf(),
        ensures
            final(self).wf(),
            final(self).step() == next_step(old(self).step(), event),
            final(self).data() == next_data(old(self).step(), event, old(self).data()),
            final(self).kind() == old(self).kind(),
            final(self).dir() == old(self).dir(),
            final(self).label() == old(self).label(),
            final(self).source() == old(self).source(),
    {
        match self.step {
            Step::Published | Step::Failed(_) => {},
            Step::Discard(x) => match event {
                PublishEvent::Input(_) => {},
                _ => {
                    self.step = Step::Failed(x);
                },
            },
            _ => match event {
                PublishEvent::Failed(f) => {
                    let e = from_failure(f);
                    if self.step == Step::WriteTemp || self.step == Step::CopyToTemp || self.step == Step::Link {
                        self.step = Step::Discard(e);
                    } else {
                        self.step = Step::Failed(e);
                    }
                },
                PublishEvent::Input(b) => {
                    if self.step == Step::ReadInput {
                        let valid = is_utf8(b.as_slice());
                        self.data = b;
                        if valid {
                            self.step = Step::WriteTemp;
                        } else {
                            self.step = Step::Failed(IpcError::EncodingFailure);
                        }
                    }
                },
                PublishEvent::Done => {
                    if self.step == Step::WriteTemp || self.step == Step::CopyToTemp {
                        self.step = Step::Link;
                    } else if self.step == Step::Link {
                        self.step = Step::RemoveTemp;
                    } else if self.step == Step::RemoveTemp {
                        self.step = Step::Published;
                    }
                },
            },
        }
    }

    /// Whether nothing is left to do.
    pub fn is_finished(&self) -> (r: bool)
        ensures
            r == (self.step() is Published || self.step() is Failed),
    {
        match self.step {
            Step::Published | Step::Failed(_) => true,
            _ => false,
        }
    }
}

/// A reader of the mailbox never sees a partial message under its final
/// name: every write goes to the temporary name, which differs from the
/// final one and which the consumer ignores; the final name only comes into
/// being by the link from the temporary file, and the link is asked for only
/// once the whole payload was written there. A failed write, copy or link
/// has the temporary name removed before the publication gives up; a failure
/// while reading the input or at the final removal ends it at once.
pub proof fn lemma_atomic_publish(p: Publish, a: PublishAction, e: PublishEvent)
    requires
        p.wf(),
        p.expects(a),
    ensures
        p.temp_path() != p.final_path(),
        kind_of_name(p.temp_name()) is None,
        a matches PublishAction::WriteTemp { path, data } ==> path@ == p.temp_path() && data@ == p.data(),
        a matches PublishAction::CopyToTemp { path, .. } ==> path@ == p.temp_path(),
        a matches PublishAction::RemoveTemp { path } ==> path@ != p.final_path(),
        a matches PublishAction::Link { from, to } ==> from@ == p.temp_path() && to@ == p.final_path(),
        next_step(p.step(), e) is Link && !(p.step() is Link) ==> e is Done
            && (p.step() is WriteTemp || p.step() is CopyToTemp),
        (p.step() is WriteTemp || p.step() is CopyToTemp || p.step() is Link) && e is Failed
            ==> next_step(p.step(), e) == Step::Discard(error_of_failure(e->Failed_0)),
        next_step(p.step(), e) is Failed && !(p.step() is Failed) ==> p.step() is ReadInput
            || p.step() is RemoveTemp || p.step() is Discard,
{
    lemma_published_names(p.label(), p.kind());
    if p.temp_path() == p.final_path() {
        lemma_joined_injective(p.dir(), p.temp_name(), p.final_name());
    }
}

/// A publication's final name is seen as its kind by the consumer, and its
/// temporary name is ignored.
pub proof fn lemma_published_kind(p: Publish)
    requires
        p.wf(),
    ensures
        p.label().len() > 0,
        kind_of_name(p.final_name()) == Some(p.kind()),
        kind_of_name(p.temp_name()) is None,
{
    lemma_published_names(p.label(), p.kind());
}

/// Two producers that publish text with distinct identifiers into one
/// mailbox use distinct final and temporary files, so both messages arrive.
pub proof fn lemma_distinct_producers(
    dir: Seq<char>,
    k1: MessageKind,
    id1: Seq<u8>,
    payload1: Seq<char>,
    p1: Publish,
    k2: MessageKind,
    id2: Seq<u8>,
    payload2: Seq<char>,
    p2: Publish,
)
    requires
        id1.len() == 16,
        id2.len() == 16,
        id1 != id2,
        Ipc::sendtext_spec(dir, k1, id1, payload1, p1),
        Ipc::sendtext_spec(dir, k2, id2, payload2, p2),
    ensures
        p1.final_path() != p2.final_path(),
        p1.temp_path() != p2.temp_path(),
        p1.temp_path() != p2.final_path(),
        kind_of_name(p1.final_name()) == Some(k1),
        kind_of_name(p2.final_name()) == Some(k2),
{
    lemma_id_token_injective(id1, id2);
    lemma_published_kind(p1);
    lemma_published_kind(p2);
    let l1 = p1.label();
    let l2 = p2.label();
    if p1.final_path() == p2.final_path() {
        lemma_joined_injective(dir, p1.final_name(), p2.final_name());
        assert(l1 =~= p1.final_name().subrange(0, l1.len() as int));
        assert(l2 =~= p2.final_name().subrange(0, l2.len() as int));
    }
    if p1.temp_path() == p2.temp_path() {
        lemma_joined_injective(dir, p1.temp_name(), p2.temp_name());
        assert(l1 =~= p1.temp_name().subrange(0, l1.len() as int));
        assert(l2 =~= p2.temp_name().subrange(0, l2.len() as int));
    }
    if p1.temp_path() == p2.final_path() {
        lemma_joined_injective(dir, p1.temp_name(), p2.final_name());
    }
}

/// Publishing then decoding gives the message back: the final name is seen
/// as the message's kind, a payload within its kind's bound is accepted, and
/// what it decodes to holds the kind, the payload and, for an attachment,
/// its file name.
pub proof fn lemma_round_trip(p: Publish, contents: Seq<u8>, m: Message)
    requires
        p.wf(),
        contents.len() <= limit_of(p.kind()),
        decodes_to(p.final_name(), contents, m),
    ensures
        kind_of_name(p.final_name()) == Some(p.kind()),
        !oversized(p.final_name(), contents.len() as int),
        m.kind() == p.kind(),
        m.payload() == contents,
        m is Raw ==> m->Raw_name@ == p.label(),
{
    lemma_published_names(p.label(), p.kind());
    reveal_strlit(".");
    reveal_strlit("raw");
    if m is Raw {
        assert(p.final_name().subrange(0, p.final_name().len() - 4) =~= p.label());
    }
}

/// A text message given on the command line comes back as it was sent: its
/// published bytes are the payload's UTF-8 encoding, a payload within the
/// text bound is accepted, and it decodes to the same kind and bytes.
pub proof fn lemma_text_round_trip(
    dir: Seq<char>,
    k: MessageKind,
    id: Seq<u8>,
    payload: Seq<char>,
    p: Publish,
    m: Message,
)
    requires
        id.len() == 16,
        payload != "-"@,
        encode_utf8(payload).len() <= limit_of(k),
        Ipc::sendtext_spec(dir, k, id, payload, p),
        decodes_to(p.final_name(), p.data(), m),
    ensures
        p.data() == encode_utf8(payload),
        kind_of_name(p.final_name()) == Some(k),
        !oversized(p.final_name(), p.data().len() as int),
        m.kind() == k,
        m.payload() == encode_utf8(payload),
{
    lemma_round_trip(p, p.data(), m);
}

/// The producer side of a mailbox.
#[derive(Debug)]
pub struct Ipc {
    _private: (),
}

impl Ipc {
    /// Starts publishing a message into the mailbox `ipc_path`. Text messages
    /// are named by a fresh random identifier; a raw message's payload is the
    /// path of the file to attach, whose file name names the message.
    pub fn send(ipc_path: &str, kind: MessageKind, payload: String) -> (r: Result<Publish, IpcError>)
        ensures
            kind == MessageKind::Raw ==> Self::sendraw_spec(ipc_path@, payload@, r),
            kind != MessageKind::Raw ==> (r matches Ok(p) ==> exists|b: Seq<u8>|
                b.len() == 16 && Self::sendtext_spec(ipc_path@, kind, b, payload@, p)),
            kind != MessageKind::Raw ==> (r matches Err(e) ==> e == IpcError::IoFailure),
    {
        match kind {
            MessageKind::Raw => Self::sendraw(ipc_path, payload),
            _ => {
                let id = uuidgen()?;
                let p = Self::sendtext(ipc_path, kind, &id, payload);
                assert(id@.len() == 16 && Self::sendtext_spec(ipc_path@, kind, id@, payload@, p));
                Ok(p)
            },
        }
    }

    /// `p` is the publication of a text message of kind `kind` with the
    /// identifier `id` and the given payload, where `-` stands for standard
    /// input.
    pub open spec fn sendtext_spec(
        dir: Seq<char>,
        kind: MessageKind,
        id: Seq<u8>,
        payload: Seq<char>,
        p: Publish,
    ) -> bool {
        &&& p.wf()
        &&& p.kind() == kind
        &&& p.dir() == dir
        &&& p.label() == id_token(id)
        &&& if payload == "-"@ {
            p.step() == Step::ReadInput
        } else {
            p.step() == Step::WriteTemp && p.data() == encode_utf8(payload)
        }
    }

    /// Starts publishing a text message whose identifier is `id`.
    pub fn sendtext(ipc_path: &str, kind: MessageKind, id: &[u8; 16], payload: String) -> (r: Publish)
        requires
            kind != MessageKind::Raw,
        ensures
            Self::sendtext_spec(ipc_path@, kind, id@, payload@, r),
    {
        let label = format_id(id);
        proof {
            lemma_id_token_plain(id@);
        }
        let mut temp_name = label.clone();
        temp_name.append(".tmp");
        let mut final_name = label.clone();
        match kind {
            MessageKind::Plaintext => final_name.append(".txt"),
            _ => final_name.append(".markdown"),
        }
        proof {
            reveal_strlit(".txt");
            reveal_strlit(".markdown");
            reveal_strlit(".");
            reveal_strlit("txt");
            reveal_strlit("markdown");
            assert(final_name@ =~= final_name_of(label@, kind));
        }
        let temp = join_path(ipc_path, temp_name.as_str());
        let dest = join_path(ipc_path, final_name.as_str());
        let dash = String::from_str("-");
        if payload == dash {
            Publish {
                kind,
                dir: String::from_str(ipc_path),
                label,
                temp,
                dest,
                source: String::new(),
                data: Vec::new(),
                step: Step::ReadInput,
            }
        } else {
            let data = payload.as_str().as_bytes_vec();
            Publish {
                kind,
                dir: String::from_str(ipc_path),
                label,
                temp,
                dest,
                source: String::new(),
                data,
                step: Step::WriteTemp,
            }
        }
    }

    /// The file name that names a raw message with the attachment path
    /// `payload`: refused where the path has no file name or that name is
    /// not ASCII.
    pub open spec fn raw_name(payload: Seq<char>) -> Result<Seq<char>, IpcError> {
        match path_file_name(payload) {
            None => Err(IpcError::InvalidInput),
            Some(n) => if is_ascii_chars(n) {
                Ok(n)
            } else {
                Err(IpcError::InvalidInput)
            },
        }
    }

    /// `r` is what `sendraw` gives for the mailbox `dir` and the attachment
    /// path `payload`.
    pub open spec fn sendraw_spec(dir: Seq<char>, payload: Seq<char>, r: Result<Publish, IpcError>) -> bool {
        match Self::raw_name(payload) {
            Err(e) => r == Err::<Publish, IpcError>(e),
            Ok(n) => r matches Ok(p) && Self::sendraw_ok(dir, payload, n, p),
        }
    }

    pub open spec fn sendraw_ok(dir: Seq<char>, payload: Seq<char>, name: Seq<char>, p: Publish) -> bool {
        &&& p.wf()
        &&& p.kind() == MessageKind::Raw
        &&& p.dir() == dir
        &&& p.label() == name
        &&& p.source() == payload
        &&& p.step() == Step::CopyToTemp
    }

    /// Starts publishing the file at `payload` as an attachment named by its
    /// file name.
    pub fn sendraw(ipc_path: &str, payload: String) -> (r: Result<Publish, IpcError>)
        ensures
            Self::sendraw_spec(ipc_path@, payload@, r),
    {
        let label = match file_name(payload.as_str()) {
            Some(n) => n,
            None => return Err(IpcError::InvalidInput),
        };
        proof {
            lemma_file_name_nonempty(payload@);
        }
        if !label.is_ascii() {
            return Err(IpcError::InvalidInput);
        }
        let mut temp_name = label.clone();
        temp_name.append(".tmp");
        let mut final_name = label.clone();
        final_name.append(".raw");
        proof {
            reveal_strlit(".raw");
            reveal_strlit(".");
            reveal_strlit("raw");
            assert(final_name@ =~= final_name_of(label@, MessageKind::Raw));
        }
        let temp = join_path(ipc_path, temp_name.as_str());
        let dest = join_path(ipc_path, final_name.as_str());
        Ok(Publish {
            kind: MessageKind::Raw,
            dir: String::from_str(ipc_path),
            label,
            temp,
            dest,
            source: payload,
            data: Vec::new(),
            step: Step::CopyToTemp,
        })
    }
}

} // verus!
