//! Hardware access through files, without touching any.
//!
//! Nothing here opens a file. A function that needs one is handed the answers given so far
//! and either asks for the next file operation or is done: [`Step`]. Whoever drives it
//! performs the operation, adds the answer and calls again. Every path goes through
//! [`Sysfs`], which carries a filesystem root, so the same driver runs against `/` or
//! against a fixture tree.

use vstd::prelude::*;
use crate::number::{
    a_minus_makes_a_number_negative,
    decimal,
    decimal_reads_back,
    is_digit,
    lemma_decimal,
    parse_signed,
    parse_up_to,
    signed,
    unsigned,
    NumberError,
};
use crate::text::{chars_of, in_quotes, lemma_trimmed_same, quoted, same, trim, trimmed};

verus! {

/// What kind of failure a file operation met.
#[derive(Debug, Clone, Copy, PartialEq, Eq, Structural)]
pub enum IoErrorKind {
    NotFound,
    PermissionDenied,
    InvalidData,
    Other,
}

/// A file operation that failed.
#[derive(Debug, Clone, PartialEq, Eq)]
pub struct IoError {
    pub kind: IoErrorKind,
    pub message: String,
}

/// What an [`IoError`] says.
pub struct IoFault {
    pub kind: IoErrorKind,
    pub message: Seq<char>,
}

impl View for IoError {
    type V = IoFault;

    open spec fn view(&self) -> IoFault {
        IoFault { kind: self.kind, message: self.message@ }
    }
}

impl IoError {
    pub fn text(&self) -> (r: String)
        ensures
            r@ == self@.message,
    {
        self.message.clone()
    }

    /// The same failure again.
    pub fn copy(&self) -> (r: Self)
        ensures
            r@ == self@,
    {
        IoError { kind: self.kind, message: self.message.clone() }
    }
}

/// What a file operation came back with: the text read, or nothing for an operation that
/// only succeeds or fails.
pub type Answer = Result<String, IoError>;

/// What an [`Answer`] says.
pub type Reply = Result<Seq<char>, IoFault>;

pub open spec fn reply(a: Answer) -> Reply {
    match a {
        Ok(t) => Ok(t@),
        Err(e) => Err(e@),
    }
}

pub open spec fn replies(a: Seq<Answer>) -> Seq<Reply> {
    a.map_values(|x: Answer| reply(x))
}

/// A file operation, its path relative to the [`Sysfs`] root.
#[derive(Debug, Clone, PartialEq, Eq)]
pub enum FileOp {
    /// Succeeds where the file exists.
    Exists(String),
    /// Gives the contents.
    Read(String),
    /// Replaces the contents.
    Write(String, String),
}

/// What a [`FileOp`] says.
pub enum Op {
    Exists(Seq<char>),
    Read(Seq<char>),
    Write(Seq<char>, Seq<char>),
}

impl View for FileOp {
    type V = Op;

    open spec fn view(&self) -> Op {
        match *self {
            FileOp::Exists(p) => Op::Exists(p@),
            FileOp::Read(p) => Op::Read(p@),
            FileOp::Write(p, t) => Op::Write(p@, t@),
        }
    }
}

/// Where a piece of file-driven work stands.
#[derive(Debug, Clone, PartialEq, Eq)]
pub enum Step<T> {
    /// It needs this done, and its answer behind the ones it had.
    Ask(FileOp),
    Done(T),
}

/// The same over plain values: what is asked for, or the result and how many of the answers
/// it took.
pub enum Run<T> {
    Ask(Op),
    Done(T, int),
}

/// Answers given so far, consumed in order.
pub struct Replay<'a> {
    answers: &'a [Answer],
    at: usize,
}

impl<'a> Replay<'a> {
    pub closed spec fn given(&self) -> Seq<Reply> {
        replies(self.answers@)
    }

    pub closed spec fn taken(&self) -> int {
        self.at as int
    }

    pub closed spec fn wf(&self) -> bool {
        self.at <= self.answers@.len()
    }

    pub fn new(answers: &'a [Answer]) -> (r: Self)
        ensures
            r.wf(),
            r.given() == replies(answers@),
            r.taken() == 0,
    {
        Self { answers, at: 0 }
    }

    /// Takes the next answer, if there is one.
    fn next(&mut self) -> (r: Option<&'a Answer>)
        requires
            old(self).wf(),
        ensures
            final(self).wf(),
            final(self).given() == old(self).given(),
            match r {
                Some(x) => old(self).taken() < old(self).given().len() && reply(*x) == old(
                    self,
                ).given()[old(self).taken()] && final(self).taken() == old(self).taken() + 1,
                None => old(self).taken() >= old(self).given().len() && final(self).taken() == old(
                    self,
                ).taken(),
            },
    {
        if self.at < self.answers.len() {
            let x: &'a Answer = &self.answers[self.at];
            self.at = self.at + 1;
            Some(x)
        } else {
            None
        }
    }

    /// Whether a file exists.
    pub fn present(&mut self, path: &str) -> (r: Result<bool, FileOp>)
        requires
            old(self).wf(),
        ensures
            final(self).wf(),
            final(self).given() == old(self).given(),
            match present_run(path@, old(self).given(), old(self).taken()) {
                Run::Done(b, p) => r == Ok::<bool, FileOp>(b) && final(self).taken() == p,
                Run::Ask(op) => r matches Err(o) && o@ == op,
            },
    {
        match self.next() {
            Some(a) => Ok(a.is_ok()),
            None => Err(FileOp::Exists(path.to_owned())),
        }
    }

    /// What a file holds.
    pub fn read(&mut self, path: &str) -> (r: Result<Answer, FileOp>)
        requires
            old(self).wf(),
        ensures
            final(self).wf(),
            final(self).given() == old(self).given(),
            match read_run(path@, old(self).given(), old(self).taken()) {
                Run::Done(x, p) => r matches Ok(a) && reply(a) == x && final(self).taken() == p,
                Run::Ask(op) => r matches Err(o) && o@ == op,
            },
    {
        match self.next() {
            Some(Ok(t)) => Ok(Ok(t.clone())),
            Some(Err(e)) => Ok(Err(e.copy())),
            None => Err(FileOp::Read(path.to_owned())),
        }
    }

    /// Whether a file took a new text.
    pub fn write(&mut self, path: &str, text: &str) -> (r: Result<Result<(), IoError>, FileOp>)
        requires
            old(self).wf(),
        ensures
            final(self).wf(),
            final(self).given() == old(self).given(),
            match write_run(path@, text@, old(self).given(), old(self).taken()) {
                Run::Done(x, p) => r matches Ok(w) && done(w) == x && final(self).taken() == p,
                Run::Ask(op) => r matches Err(o) && o@ == op,
            },
    {
        match self.next() {
            Some(Ok(_)) => Ok(Ok(())),
            Some(Err(e)) => Ok(Err(e.copy())),
            None => Err(FileOp::Write(path.to_owned(), text.to_owned())),
        }
    }
}

/// The outcome of an operation that gives nothing back.
pub open spec fn done(w: Result<(), IoError>) -> Result<(), IoFault> {
    match w {
        Ok(()) => Ok(()),
        Err(e) => Err(e@),
    }
}

pub open spec fn present_run(path: Seq<char>, a: Seq<Reply>, p: int) -> Run<bool> {
    if p < a.len() {
        Run::Done(a[p] is Ok, p + 1)
    } else {
        Run::Ask(Op::Exists(path))
    }
}

pub open spec fn read_run(path: Seq<char>, a: Seq<Reply>, p: int) -> Run<Reply> {
    if p < a.len() {
        Run::Done(a[p], p + 1)
    } else {
        Run::Ask(Op::Read(path))
    }
}

pub open spec fn write_run(path: Seq<char>, text: Seq<char>, a: Seq<Reply>, p: int) -> Run<
    Result<(), IoFault>,
> {
    if p < a.len() {
        Run::Done(
            match a[p] {
                Ok(_) => Ok(()),
                Err(e) => Err(e),
            },
            p + 1,
        )
    } else {
        Run::Ask(Op::Write(path, text))
    }
}

/// `s` without the slashes it starts with.
pub open spec fn relative(s: Seq<char>) -> Seq<char>
    decreases s.len(),
{
    if s.len() > 0 && s[0] == '/' {
        relative(s.skip(1))
    } else {
        s
    }
}

/// A path below a root: one slash between the two, unless the root is empty or ends in one.
pub open spec fn joined(root: Seq<char>, rel: Seq<char>) -> Seq<char> {
    if root.len() == 0 || root.last() == '/' {
        root + relative(rel)
    } else {
        root + seq!['/'] + relative(rel)
    }
}

/// What the text of a file says as a number: white space around it does not count.
pub open spec fn unsigned_in(rel: Seq<char>, text: Reply) -> Result<nat, IoFault> {
    match text {
        Err(e) => Err(e),
        Ok(t) => match unsigned(trimmed(t), u64::MAX as nat) {
            Ok(n) => Ok(n),
            Err(e) => Err(not_a_number(rel, trimmed(t), "u64"@, e)),
        },
    }
}

pub open spec fn signed_in(rel: Seq<char>, text: Reply) -> Result<int, IoFault> {
    match text {
        Err(e) => Err(e),
        Ok(t) => match signed(trimmed(t)) {
            Ok(n) => Ok(n),
            Err(e) => Err(not_a_number(rel, trimmed(t), "i64"@, e)),
        },
    }
}

pub open spec fn not_a_number(
    rel: Seq<char>,
    raw: Seq<char>,
    kind: Seq<char>,
    e: NumberError,
) -> IoFault {
    IoFault {
        kind: IoErrorKind::InvalidData,
        message: rel + ": cannot parse "@ + in_quotes(raw) + " as "@ + kind + ": "@
            + e.spec_text(),
    }
}

fn number_error(rel: &str, raw: &str, kind: &str, e: NumberError) -> (r: IoError)
    ensures
        r@ == not_a_number(rel@, raw@, kind@, e),
{
    let mut m = rel.to_owned();
    m.append(": cannot parse ");
    m.append(quoted(raw).as_str());
    m.append(" as ");
    m.append(kind);
    m.append(": ");
    m.append(e.text());
    IoError { kind: IoErrorKind::InvalidData, message: m }
}

/// A file that holds a number in decimal, with or without an end of line, reads as that number.
pub proof fn a_number_in_a_file_reads_as_itself(rel: Seq<char>, n: nat)
    requires
        n <= u64::MAX,
    ensures
        unsigned_in(rel, Ok(decimal(n))) == Ok::<nat, IoFault>(n),
        unsigned_in(rel, Ok(decimal(n).push('\n'))) == Ok::<nat, IoFault>(n),
{
    let t = decimal(n);
    lemma_decimal(n);
    assert(is_digit(t[0]) && is_digit(t.last()));
    lemma_trimmed_same(t);
    decimal_reads_back(n, u64::MAX as nat);
    let l = t.push('\n');
    assert(l.drop_last() =~= t);
    assert(trimmed(l) == t);
}

/// So does one with a minus sign before it, where signed numbers are read.
pub proof fn a_signed_number_in_a_file_reads_as_itself(rel: Seq<char>, n: nat)
    requires
        n <= i64::MAX,
    ensures
        signed_in(rel, Ok(decimal(n).push('\n'))) == Ok::<int, IoFault>(n as int),
        signed_in(rel, Ok(seq!['-'] + decimal(n).push('\n'))) == Ok::<int, IoFault>(-(n as int)),
{
    let t = decimal(n);
    lemma_decimal(n);
    assert(is_digit(t[0]) && is_digit(t.last()));
    a_minus_makes_a_number_negative(n);
    lemma_trimmed_same(t);
    let l = t.push('\n');
    assert(l.drop_last() =~= t);
    assert(trimmed(l) == t);
    let u = seq!['-'] + t;
    lemma_trimmed_same(u);
    let m = seq!['-'] + l;
    assert(m.drop_last() =~= u);
    assert(trimmed(m) == u);
}

/// A path below a root has one slash between the two, however many the path starts with, and
/// none where the root is empty.
pub proof fn one_slash_joins_a_path(root: Seq<char>, slashes: Seq<char>, rel: Seq<char>)
    requires
        forall|i: int| 0 <= i < slashes.len() ==> slashes[i] == '/',
        rel.len() > 0 ==> rel[0] != '/',
    ensures
        root.len() > 0 && root.last() != '/' ==> joined(root, slashes + rel) == root + seq!['/'] + rel,
        root.len() == 0 || root.last() == '/' ==> joined(root, slashes + rel) == root + rel,
    decreases slashes.len(),
{
    let w = slashes + rel;
    if slashes.len() > 0 {
        assert(w[0] == '/');
        assert(w.skip(1) =~= slashes.skip(1) + rel);
        one_slash_joins_a_path(root, slashes.skip(1), rel);
    } else {
        assert(w =~= rel);
    }
}

/// What cannot be read is no number, and why it cannot is passed on.
pub proof fn an_unreadable_file_holds_no_number(rel: Seq<char>, e: IoFault)
    ensures
        unsigned_in(rel, Err(e)) == Err::<nat, IoFault>(e),
        signed_in(rel, Err(e)) == Err::<int, IoFault>(e),
{
}

/// A filesystem root for hardware access.
#[derive(Debug, Clone, PartialEq, Eq)]
pub struct Sysfs {
    root: String,
}

impl Sysfs {
    pub closed spec fn view(&self) -> Seq<char> {
        self.root@
    }

    pub fn new(root: &str) -> (r: Self)
        ensures
            r@ == root@,
    {
        Self { root: root.to_owned() }
    }

    /// Resolve a relative path. Leading slashes are tolerated, so callers may write either
    /// `/sys/...` or `sys/...`.
    pub fn path(&self, rel: &str) -> (r: String)
        ensures
            r@ == joined(self@, rel@),
    {
        let chars = chars_of(rel);
        let n: usize = chars.len();
        let mut i: usize = 0;
        assert(rel@.skip(0) =~= rel@);
        while i < n && chars[i] == '/'
            invariant
                n == chars@.len(),
                chars@ == rel@,
                i <= n,
                relative(rel@) == relative(rel@.skip(i as int)),
            decreases n - i,
        {
            assert(rel@.skip(i as int).skip(1) =~= rel@.skip(i + 1));
            i = i + 1;
        }
        let mut out = self.root.clone();
        let len: usize = self.root.as_str().unicode_len();
        proof {
            reveal_strlit("/");
            assert("/"@ =~= seq!['/']);
            assert(rel@.subrange(i as int, n as int) =~= rel@.skip(i as int));
        }
        if len > 0 && self.root.as_str().get_char(len - 1) != '/' {
            out.append("/");
        }
        out.append(rel.substring_char(i, n));
        out
    }

    /// What a file says, without the white space around it.
    pub fn read_string(&self, text: Answer) -> (r: Answer)
        ensures
            reply(r) == (match reply(text) {
                Ok(t) => Ok(trimmed(t)),
                Err(e) => Err(e),
            }),
    {
        match text {
            Ok(t) => Ok(trim(t.as_str()).to_owned()),
            Err(e) => Err(e),
        }
    }

    /// What the file at `rel` says as a number.
    pub fn read_u64(&self, rel: &str, text: Answer) -> (r: Result<u64, IoError>)
        ensures
            match unsigned_in(rel@, reply(text)) {
                Ok(n) => r matches Ok(v) && v == n,
                Err(e) => r matches Err(x) && x@ == e,
            },
    {
        match text {
            Ok(t) => {
                let raw = trim(t.as_str());
                match parse_up_to(raw, u64::MAX) {
                    Ok(n) => Ok(n),
                    Err(e) => Err(number_error(rel, raw, "u64", e)),
                }
            },
            Err(e) => Err(e),
        }
    }

    /// What the file at `rel` says as a number that may be negative.
    pub fn read_i64(&self, rel: &str, text: Answer) -> (r: Result<i64, IoError>)
        ensures
            match signed_in(rel@, reply(text)) {
                Ok(n) => r matches Ok(v) && v == n,
                Err(e) => r matches Err(x) && x@ == e,
            },
    {
        match text {
            Ok(t) => {
                let raw = trim(t.as_str());
                match parse_signed(raw) {
                    Ok(n) => Ok(n),
                    Err(e) => Err(number_error(rel, raw, "i64", e)),
                }
            },
            Err(e) => Err(e),
        }
    }

    /// Locate a hwmon node by its `name` file: its path relative to the root.
    ///
    /// hwmon indices are assigned in probe order and are not stable across boots. The nodes
    /// are those of `sys/class/hwmon`, each with what its `name` file gave.
    pub fn find_hwmon(&self, nodes: &Vec<(String, Answer)>, name: &str) -> (r: Option<String>)
        ensures
            match r {
                Some(p) => exists|i: int|
                    0 <= i < nodes@.len() && node_is_named(#[trigger] nodes@[i], name@) && p@
                        == hwmon_path(nodes@[i].0@) && forall|j: int|
                        0 <= j < i ==> !node_is_named(#[trigger] nodes@[j], name@),
                None => forall|i: int|
                    0 <= i < nodes@.len() ==> !node_is_named(#[trigger] nodes@[i], name@),
            },
    {
        let mut i: usize = 0;
        while i < nodes.len()
            invariant
                i <= nodes@.len(),
                forall|j: int| 0 <= j < i ==> !node_is_named(#[trigger] nodes@[j], name@),
            decreases nodes@.len() - i,
        {
            if let Ok(t) = &nodes[i].1 {
                if same(trim(t.as_str()), name) {
                    let mut p = "sys/class/hwmon/".to_owned();
                    p.append(nodes[i].0.as_str());
                    assert(node_is_named(nodes@[i as int], name@));
                    return Some(p);
                }
            }
            i = i + 1;
        }
        None
    }
}

pub open spec fn hwmon_path(base: Seq<char>) -> Seq<char> {
    "sys/class/hwmon/"@ + base
}

/// Whether a node's `name` file could be read and holds this name.
pub open spec fn node_is_named(node: (String, Answer), name: Seq<char>) -> bool {
    node.1 matches Ok(t) && trimmed(t@) == name
}

impl Default for Sysfs {
    fn default() -> (r: Self)
        ensures
            r@ == "/"@,
    {
        Self::new("/")
    }
}

}
