//! Raw EC commands: how they are framed for the device, and what is asked with them.
//!
//! Kernel files come first; raw commands are for what no file can do. The charge limit is
//! one such thing, the fan of boards without `pwm1` another.

use vstd::prelude::*;
use crate::board::Board;
use crate::caps::Cap;
use crate::charge::{attribute, MAX_LIMIT, MIN_LIMIT, THRESHOLD};
use crate::ec::{
    features,
    get_request,
    limits_in,
    mode,
    parse_limits,
    set_bytes,
    set_request,
    ChargeLimits,
    CHARGE_LIMIT_CONTROL,
    GET_RESPONSE_LEN,
};
use crate::number::{decimal, decimal_text};
use crate::paths::BATTERY;
use crate::sysfs::{FileOp, IoError, IoErrorKind, IoFault, Op};

verus! {

pub const DEVICE: &'static str = "/dev/cros_ec";

/// Bytes before the payload of a framed command: five 32-bit words.
pub const HEADER_LEN: usize = 20;

/// The device's command ioctl: read and write, type 0xEC, number 0, a header's size.
pub const CROS_EC_DEV_IOCXCMD_V2: u64 = 0xC014_EC00;

/// The number of an ioctl that reads and writes `size` bytes: direction, size, type and
/// number, from the top.
pub open spec fn ioctl_number(ty: u8, nr: u8, size: usize) -> u64 {
    (3u64 << 30) | ((size as u64) << 16) | ((ty as u64) << 8) | (nr as u64)
}

/// The number of an ioctl that reads and writes `size` bytes.
pub fn iowr(ty: u8, nr: u8, size: usize) -> (r: u64)
    ensures
        r == ioctl_number(ty, nr, size),
{
    (3u64 << 30) | ((size as u64) << 16) | ((ty as u64) << 8) | (nr as u64)
}

/// The command ioctl is the one its parts give.
pub proof fn the_command_ioctl_is_as_derived()
    ensures
        ioctl_number(0xEC, 0, HEADER_LEN) == CROS_EC_DEV_IOCXCMD_V2,
{
    assert((3u64 << 30) | (20u64 << 16) | (0xECu64 << 8) | 0u64 == 0xC014_EC00u64) by (bit_vector);
}

#[derive(Debug, Clone, PartialEq, Eq)]
pub enum EcError {
    /// The device node is missing, or we are not root.
    Open(IoError),
    Ioctl(IoError),
    /// The EC answered, and said no: the command reached firmware that declined it.
    Rejected(u32),
    /// Fewer bytes than the response is defined to carry. Never guess at a value here.
    ShortResponse { want: usize, got: usize },
}

/// What an [`EcError`] says.
pub enum EcFault {
    Open(IoFault),
    Ioctl(IoFault),
    Rejected(u32),
    ShortResponse { want: usize, got: usize },
}

impl View for EcError {
    type V = EcFault;

    open spec fn view(&self) -> EcFault {
        match *self {
            EcError::Open(e) => EcFault::Open(e@),
            EcError::Ioctl(e) => EcFault::Ioctl(e@),
            EcError::Rejected(code) => EcFault::Rejected(code),
            EcError::ShortResponse { want, got } => EcFault::ShortResponse { want, got },
        }
    }
}

impl EcFault {
    pub open spec fn text(self) -> Seq<char> {
        match self {
            EcFault::Open(e) => match e.kind {
                IoErrorKind::PermissionDenied => DEVICE@ + " needs root"@,
                IoErrorKind::NotFound => "no "@ + DEVICE@ + "; is cros_ec_chardev loaded?"@,
                _ => "cannot open "@ + DEVICE@ + ": "@ + e.message,
            },
            EcFault::Ioctl(e) => "EC command failed: "@ + e.message,
            EcFault::Rejected(code) => "the EC rejected the command (result "@ + decimal(
                code as nat,
            ) + ")"@,
            EcFault::ShortResponse { want, got } => "the EC returned "@ + decimal(got as nat)
                + " bytes, expected "@ + decimal(want as nat),
        }
    }
}

impl EcError {
    /// The same failure again.
    pub fn copy(&self) -> (r: Self)
        ensures
            r@ == self@,
    {
        match self {
            EcError::Open(e) => EcError::Open(e.copy()),
            EcError::Ioctl(e) => EcError::Ioctl(e.copy()),
            EcError::Rejected(code) => EcError::Rejected(*code),
            EcError::ShortResponse { want, got } => EcError::ShortResponse {
                want: *want,
                got: *got,
            },
        }
    }

    pub fn text(&self) -> (r: String)
        ensures
            r@ == self@.text(),
    {
        match self {
            EcError::Open(e) => match e.kind {
                IoErrorKind::PermissionDenied => {
                    let mut s = DEVICE.to_owned();
                    s.append(" needs root");
                    s
                },
                IoErrorKind::NotFound => {
                    let mut s = "no ".to_owned();
                    s.append(DEVICE);
                    s.append("; is cros_ec_chardev loaded?");
                    s
                },
                _ => {
                    let mut s = "cannot open ".to_owned();
                    s.append(DEVICE);
                    s.append(": ");
                    s.append(e.message.as_str());
                    s
                },
            },
            EcError::Ioctl(e) => {
                let mut s = "EC command failed: ".to_owned();
                s.append(e.message.as_str());
                s
            },
            EcError::Rejected(code) => {
                let mut s = "the EC rejected the command (result ".to_owned();
                s.append(decimal_text(*code as u64).as_str());
                s.append(")");
                s
            },
            EcError::ShortResponse { want, got } => {
                let mut s = "the EC returned ".to_owned();
                s.append(decimal_text(*got as u64).as_str());
                s.append(" bytes, expected ");
                s.append(decimal_text(*want as u64).as_str());
                s
            },
        }
    }
}

/// Something that can carry a command to the EC. What is sent, and what is made of the
/// answers, is not its business: see [`EcStep`].
pub trait EcTransport {
    /// Send `out` and come back with `insize` bytes.
    fn command(&self, command: u32, version: u32, out: &[u8], insize: usize) -> Result<
        Vec<u8>,
        EcError,
    >;
}

/// What a command came back with.
pub type EcAnswer = Result<Vec<u8>, EcError>;

/// What an [`EcAnswer`] says.
pub type EcReply = Result<Seq<u8>, EcFault>;

pub open spec fn ec_reply(a: EcAnswer) -> EcReply {
    match a {
        Ok(v) => Ok(v@),
        Err(e) => Err(e@),
    }
}

pub open spec fn ec_replies(a: Seq<EcAnswer>) -> Seq<EcReply> {
    a.map_values(|x: EcAnswer| ec_reply(x))
}

/// Where a piece of work on the EC stands.
#[derive(Debug, Clone, PartialEq, Eq)]
pub enum EcStep<T> {
    /// It needs this command sent, and its answer behind the ones it had.
    Send { command: u32, version: u32, out: Vec<u8>, insize: usize },
    Done(T),
}

/// One command, as it is sent.
pub struct Call {
    pub command: u32,
    pub version: u32,
    pub out: Seq<u8>,
    pub insize: usize,
}

/// The same over plain values: what is sent next, or the result and how many commands it
/// took.
pub enum EcRun<T> {
    Send(Call),
    Done(T, int),
}

/// Whether a step sends this command.
pub open spec fn sends<T>(s: EcStep<T>, c: Call) -> bool {
    s matches EcStep::Send { command, version, out, insize } && command == c.command && version
        == c.version && out@ == c.out && insize == c.insize
}

/// Command number `p`: sent where its answer is not there yet.
pub open spec fn asked(a: Seq<EcReply>, p: int, c: Call) -> EcRun<EcReply> {
    if p < a.len() {
        EcRun::Done(a[p], p + 1)
    } else {
        EcRun::Send(c)
    }
}

/// Byte `k` of a 32-bit word, lowest first.
pub open spec fn word_byte(n: int, k: int) -> u8 {
    if k == 0 {
        (n % 256) as u8
    } else if k == 1 {
        (n / 256 % 256) as u8
    } else if k == 2 {
        (n / 65_536 % 256) as u8
    } else {
        (n / 16_777_216 % 256) as u8
    }
}

/// The order in which a machine keeps the bytes of a word. The device takes words as the
/// machine has them.
#[derive(Debug, Clone, Copy, PartialEq, Eq, Structural)]
pub enum ByteOrder {
    /// Lowest first.
    Little,
    /// Highest first.
    Big,
}

/// The bytes of a word.
pub open spec fn word_bytes(order: ByteOrder, n: int) -> Seq<u8> {
    match order {
        ByteOrder::Little => seq![
            word_byte(n, 0),
            word_byte(n, 1),
            word_byte(n, 2),
            word_byte(n, 3),
        ],
        ByteOrder::Big => seq![
            word_byte(n, 3),
            word_byte(n, 2),
            word_byte(n, 1),
            word_byte(n, 0),
        ],
    }
}

/// The number that four bytes spell.
pub open spec fn word_at(order: ByteOrder, b: Seq<u8>, i: int) -> int {
    match order {
        ByteOrder::Little => b[i] + b[i + 1] * 256 + b[i + 2] * 65_536 + b[i + 3] * 16_777_216,
        ByteOrder::Big => b[i + 3] + b[i + 2] * 256 + b[i + 1] * 65_536 + b[i] * 16_777_216,
    }
}

/// The bytes of a word as this machine keeps them: std's `u32::to_ne_bytes`. Claimed of it is
/// that they come lowest first or highest first. Which of the two it is depends on the machine
/// and is left unsaid.
#[verifier::external_body]
fn bytes_in_memory(n: u32) -> (r: [u8; 4])
    ensures
        r@ == word_bytes(ByteOrder::Little, n as int) || r@ == word_bytes(
            ByteOrder::Big,
            n as int,
        ),
{
    n.to_ne_bytes()
}

impl ByteOrder {
    /// The order of a machine that keeps the number one in these bytes.
    pub open spec fn seen_in(one: Seq<u8>) -> ByteOrder {
        if one == word_bytes(ByteOrder::Little, 1) {
            ByteOrder::Little
        } else {
            ByteOrder::Big
        }
    }

    /// The order of a machine that keeps the number one in these bytes.
    pub fn of(one: [u8; 4]) -> (r: Self)
        requires
            one@ == word_bytes(ByteOrder::Little, 1) || one@ == word_bytes(ByteOrder::Big, 1),
        ensures
            r == ByteOrder::seen_in(one@),
    {
        if one[0] == 1 {
            assert(one@ == word_bytes(ByteOrder::Little, 1)) by {
                assert(word_bytes(ByteOrder::Big, 1)[0] == 0);
            }
            ByteOrder::Little
        } else {
            assert(one@ != word_bytes(ByteOrder::Little, 1)) by {
                assert(word_bytes(ByteOrder::Little, 1)[0] == 1);
            }
            ByteOrder::Big
        }
    }

    /// The order of this machine, as it keeps the number one.
    pub fn native() -> (r: Self)
        ensures
            exists|one: Seq<u8>|
                (one == word_bytes(ByteOrder::Little, 1) || one == word_bytes(ByteOrder::Big, 1))
                    && r == #[trigger] ByteOrder::seen_in(one),
    {
        let one = bytes_in_memory(1);
        let r = Self::of(one);
        assert(r == ByteOrder::seen_in(one@));
        r
    }
}

pub open spec fn larger(a: int, b: int) -> int {
    if a > b {
        a
    } else {
        b
    }
}

/// A framed command: version, command, size out, size in, room for the result, and a
/// payload that serves both ways.
pub open spec fn frame(
    order: ByteOrder,
    command: u32,
    version: u32,
    out: Seq<u8>,
    insize: int,
) -> Seq<u8> {
    word_bytes(order, version as int) + word_bytes(order, command as int) + word_bytes(
        order,
        out.len() as int,
    ) + word_bytes(order, insize) + word_bytes(order, 0) + out + Seq::new(
        (larger(out.len() as int, insize) - out.len()) as nat,
        |i: int| 0u8,
    )
}

/// What a framed command came back with: `count` bytes of the buffer were filled.
pub open spec fn unframed(
    order: ByteOrder,
    buf: Seq<u8>,
    count: int,
    payload: int,
    insize: int,
) -> Result<Seq<u8>, EcError> {
    let result = word_at(order, buf, 16);
    let got = if count < payload {
        count
    } else {
        payload
    };
    if result != 0 {
        Err(EcError::Rejected(result as u32))
    } else if got < insize {
        Err(EcError::ShortResponse { want: insize as usize, got: got as usize })
    } else {
        Ok(buf.subrange(HEADER_LEN as int, HEADER_LEN + insize))
    }
}

/// The same bytes again.
pub(crate) fn bytes_of(b: &[u8]) -> (r: Vec<u8>)
    ensures
        r@ == b@,
{
    let mut out: Vec<u8> = Vec::new();
    let mut i: usize = 0;
    while i < b.len()
        invariant
            i <= b@.len(),
            out@ == b@.take(i as int),
        decreases b@.len() - i,
    {
        out.push(b[i]);
        i = i + 1;
        assert(out@ =~= b@.take(i as int));
    }
    assert(out@ =~= b@);
    out
}

fn push_word(buf: &mut Vec<u8>, order: ByteOrder, n: u32)
    ensures
        final(buf)@ == old(buf)@ + word_bytes(order, n as int),
{
    let ghost had = buf@;
    let (a, b): (u8, u8) = ((n % 256) as u8, (n / 256 % 256) as u8);
    let (c, d): (u8, u8) = ((n / 65_536 % 256) as u8, (n / 16_777_216 % 256) as u8);
    match order {
        ByteOrder::Little => {
            buf.push(a);
            buf.push(b);
            buf.push(c);
            buf.push(d);
        },
        ByteOrder::Big => {
            buf.push(d);
            buf.push(c);
            buf.push(b);
            buf.push(a);
        },
    }
    assert(buf@ =~= had + word_bytes(order, n as int));
}

/// The EC's device node.
#[derive(Debug, Clone, PartialEq, Eq)]
pub struct CrosEc {
    path: String,
}

impl CrosEc {
    pub closed spec fn view(&self) -> Seq<char> {
        self.path@
    }

    pub fn new(path: &str) -> (r: Self)
        ensures
            r@ == path@,
    {
        Self { path: path.to_owned() }
    }

    /// Where the node is.
    pub fn path(&self) -> (r: &str)
        ensures
            r@ == self@,
    {
        self.path.as_str()
    }

    /// Frame a command for the device. One buffer serves as request and response.
    pub fn request(
        order: ByteOrder,
        command: u32,
        version: u32,
        out: &[u8],
        insize: usize,
    ) -> (r: Vec<u8>)
        requires
            out@.len() + HEADER_LEN <= u32::MAX,
            insize + HEADER_LEN <= u32::MAX,
        ensures
            r@ == frame(order, command, version, out@, insize as int),
    {
        let mut buf: Vec<u8> = Vec::new();
        push_word(&mut buf, order, version);
        push_word(&mut buf, order, command);
        push_word(&mut buf, order, out.len() as u32);
        push_word(&mut buf, order, insize as u32);
        push_word(&mut buf, order, 0);
        let ghost head = buf@;
        let mut i: usize = 0;
        assert(out@.take(0) =~= seq![]);
        assert(buf@ =~= head + out@.take(0));
        while i < out.len()
            invariant
                i <= out@.len(),
                buf@ == head + out@.take(i as int),
            decreases out@.len() - i,
        {
            buf.push(out[i]);
            i = i + 1;
            assert(buf@ =~= head + out@.take(i as int));
        }
        assert(out@.take(i as int) =~= out@);
        let ghost sent = buf@;
        let payload: usize = if out.len() > insize {
            out.len()
        } else {
            insize
        };
        let mut k: usize = out.len();
        assert(buf@ =~= sent + Seq::new((k - out@.len()) as nat, |i: int| 0u8));
        while k < payload
            invariant
                out@.len() <= k <= payload,
                buf@ == sent + Seq::new((k - out@.len()) as nat, |i: int| 0u8),
            decreases payload - k,
        {
            buf.push(0);
            k = k + 1;
            assert(buf@ =~= sent + Seq::new((k - out@.len()) as nat, |i: int| 0u8));
        }
        buf
    }

    /// What the device made of a framed command, `count` being what the ioctl returned.
    pub fn response(order: ByteOrder, buf: &[u8], count: usize, insize: usize) -> (r: Result<
        Vec<u8>,
        EcError,
    >)
        requires
            buf@.len() >= HEADER_LEN + insize,
        ensures
            match r {
                Ok(v) => unframed(order, buf@, count as int, buf@.len() - HEADER_LEN, insize as int)
                    == Ok::<Seq<u8>, EcError>(v@),
                Err(e) => unframed(order, buf@, count as int, buf@.len() - HEADER_LEN, insize as int)
                    == Err::<Seq<u8>, EcError>(e),
            },
    {
        let (a, b): (u32, u32) = (buf[16] as u32, buf[17] as u32);
        let (c, d): (u32, u32) = (buf[18] as u32, buf[19] as u32);
        let result: u32 = match order {
            ByteOrder::Little => a + b * 256 + c * 65_536 + d * 16_777_216,
            ByteOrder::Big => d + c * 256 + b * 65_536 + a * 16_777_216,
        };
        if result != 0 {
            return Err(EcError::Rejected(result));
        }
        let len: usize = buf.len();
        let payload: usize = len - HEADER_LEN;
        let got: usize = if count < payload {
            count
        } else {
            payload
        };
        if got < insize {
            return Err(EcError::ShortResponse { want: insize, got });
        }
        let mut out: Vec<u8> = Vec::new();
        let mut i: usize = 0;
        while i < insize
            invariant
                i <= insize,
                len == buf@.len(),
                len >= HEADER_LEN + insize,
                out@ == buf@.subrange(HEADER_LEN as int, HEADER_LEN + i),
            decreases insize - i,
        {
            out.push(buf[HEADER_LEN + i]);
            i = i + 1;
            assert(out@ =~= buf@.subrange(HEADER_LEN as int, HEADER_LEN + i));
        }
        Ok(out)
    }
}

impl Default for CrosEc {
    fn default() -> (r: Self)
        ensures
            r@ == DEVICE@,
    {
        Self::new(DEVICE)
    }
}

/// A word's bytes spell the word.
pub proof fn words_survive_framing(order: ByteOrder, n: u32)
    ensures
        word_at(order, word_bytes(order, n as int), 0) == n,
{
}

/// The limits in an answer to a get.
pub open spec fn limits_from(a: EcReply) -> Result<ChargeLimits, EcFault> {
    match a {
        Err(e) => Err(e),
        Ok(v) => match limits_in(v) {
            Some(l) => Ok(l),
            None => Err(EcFault::ShortResponse { want: GET_RESPONSE_LEN, got: v.len() as usize }),
        },
    }
}

/// The bytes that ask for the limits.
pub open spec fn get_bytes() -> Seq<u8> {
    seq![mode::GET, 0xFFu8, 0xFFu8]
}

/// The command that asks for the limits.
pub open spec fn get_call() -> Call {
    Call {
        command: CHARGE_LIMIT_CONTROL,
        version: 0,
        out: get_bytes(),
        insize: GET_RESPONSE_LEN,
    }
}

/// The command that sets the limits. It brings nothing back: asking for an answer would mean
/// waiting for bytes that the EC never sends.
pub open spec fn set_call(l: ChargeLimits) -> Call {
    Call { command: CHARGE_LIMIT_CONTROL, version: 0, out: set_bytes(l), insize: 0 }
}

/// Reading the limits, as command number `p`.
pub open spec fn get_run(a: Seq<EcReply>, p: int) -> EcRun<Result<ChargeLimits, EcFault>> {
    match asked(a, p, get_call()) {
        EcRun::Send(c) => EcRun::Send(c),
        EcRun::Done(r, q) => EcRun::Done(limits_from(r), q),
    }
}

/// Setting the maximum: the limits are read, set with the minimum that was read, and read
/// again. A failure on the way ends it.
pub open spec fn set_max_run(percent: u8, a: Seq<EcReply>) -> EcRun<
    Result<ChargeLimits, EcFault>,
> {
    match get_run(a, 0) {
        EcRun::Send(c) => EcRun::Send(c),
        EcRun::Done(Err(e), q) => EcRun::Done(Err(e), q),
        EcRun::Done(Ok(had), q) => match asked(
            a,
            q,
            set_call(ChargeLimits { min: had.min, max: percent }),
        ) {
            EcRun::Send(c) => EcRun::Send(c),
            EcRun::Done(Err(e), z) => EcRun::Done(Err(e), z),
            EcRun::Done(Ok(_), z) => get_run(a, z),
        },
    }
}

/// What a result about the limits says.
pub open spec fn limits_said(r: Result<ChargeLimits, EcError>) -> Result<ChargeLimits, EcFault> {
    match r {
        Ok(l) => Ok(l),
        Err(e) => Err(e@),
    }
}

/// The limits in an answer to a get.
pub fn read_limits(a: &EcAnswer) -> (r: Result<ChargeLimits, EcError>)
    ensures
        limits_said(r) == limits_from(ec_reply(*a)),
{
    match a {
        Err(e) => Err(e.copy()),
        Ok(v) => match parse_limits(v.as_slice()) {
            Some(l) => Ok(l),
            None => Err(EcError::ShortResponse { want: GET_RESPONSE_LEN, got: v.len() }),
        },
    }
}

fn send_get<T>() -> (r: EcStep<T>)
    ensures
        sends(r, get_call()),
{
    let request = get_request();
    let out = bytes_of(request.as_slice());
    assert(out@ =~= get_bytes());
    EcStep::Send { command: CHARGE_LIMIT_CONTROL, version: 0, out, insize: GET_RESPONSE_LEN }
}

fn send_set<T>(l: ChargeLimits) -> (r: EcStep<T>)
    ensures
        sends(r, set_call(l)),
{
    let request = set_request(l);
    let out = bytes_of(request.as_slice());
    assert(out@ =~= set_bytes(l));
    EcStep::Send { command: CHARGE_LIMIT_CONTROL, version: 0, out, insize: 0 }
}

/// The battery charge limit, as Framework's EC actually governs it.
#[derive(Debug, Clone, Copy, PartialEq, Eq, Structural)]
pub struct EcChargeLimit;

impl EcChargeLimit {
    pub fn new() -> (r: Self)
        ensures
            r == EcChargeLimit,
    {
        EcChargeLimit
    }

    /// What the EC holds: one command, whose answer holds the limits.
    pub fn get(&self, answers: &[EcAnswer]) -> (r: EcStep<Result<ChargeLimits, EcError>>)
        ensures
            match get_run(ec_replies(answers@), 0) {
                EcRun::Send(c) => sends(r, c),
                EcRun::Done(x, _) => r matches EcStep::Done(v) && limits_said(v) == x,
            },
    {
        if answers.len() == 0 {
            return send_get();
        }
        EcStep::Done(read_limits(&answers[0]))
    }

    /// Set the maximum, preserving whatever minimum the EC already holds: that is its own
    /// discharge floor and not ours to reset as a side effect. The limits that come back are
    /// those read after the set.
    pub fn set_max(&self, percent: u8, answers: &[EcAnswer]) -> (r: EcStep<
        Result<ChargeLimits, EcError>,
    >)
        ensures
            match set_max_run(percent, ec_replies(answers@)) {
                EcRun::Send(c) => sends(r, c),
                EcRun::Done(x, _) => r matches EcStep::Done(v) && limits_said(v) == x,
            },
    {
        if answers.len() == 0 {
            return send_get();
        }
        let had = match read_limits(&answers[0]) {
            Err(e) => {
                return EcStep::Done(Err(e));
            },
            Ok(l) => l,
        };
        if answers.len() == 1 {
            return send_set(ChargeLimits { min: had.min, max: percent });
        }
        if let Err(e) = &answers[1] {
            return EcStep::Done(Err(e.copy()));
        }
        if answers.len() == 2 {
            return send_get();
        }
        EcStep::Done(read_limits(&answers[2]))
    }
}

/// Setting a maximum is a get, a set with the minimum that the get brought, and a get, and
/// its result is what the last one brought.
pub proof fn a_maximum_is_read_set_and_read_back(
    percent: u8,
    first: Seq<u8>,
    second: Seq<u8>,
    third: EcReply,
)
    requires
        limits_in(first) is Some,
    ensures
        set_max_run(percent, seq![]) == EcRun::<Result<ChargeLimits, EcFault>>::Send(get_call()),
        set_max_run(percent, seq![Ok(first)]) == EcRun::<Result<ChargeLimits, EcFault>>::Send(
            set_call(ChargeLimits { min: limits_in(first)->0.min, max: percent }),
        ),
        set_max_run(percent, seq![Ok(first), Ok(second)]) == EcRun::<
            Result<ChargeLimits, EcFault>,
        >::Send(get_call()),
        set_max_run(percent, seq![Ok(first), Ok(second), third]) == EcRun::Done(
            limits_from(third),
            3,
        ),
{
}

/// Nothing but the get is sent to read the limits, and nothing at all once it was answered.
pub proof fn reading_the_limits_changes_nothing(a: Seq<EcReply>)
    ensures
        get_run(a, 0) matches EcRun::Send(c) ==> a.len() == 0 && c == get_call(),
        read_run(a) matches EcRun::Send(c) ==> a.len() == 0 && c == get_call(),
        charge_capability_run(a) matches EcRun::Send(c) ==> a.len() == 0 && c == get_call(),
{
}

/// What can go wrong applying a charge limit. Range is checked before support, so that a
/// typo reports as a typo even on a machine that could not apply it anyway.
#[derive(Debug, Clone, PartialEq, Eq)]
pub enum ChargeLimitError {
    OutOfRange(u8),
    Ec(EcError),
    /// The EC took the command and still reports something else.
    NotApplied { requested: u8, observed: u8 },
}

/// What a [`ChargeLimitError`] says.
pub enum ChargeLimitFault {
    OutOfRange(u8),
    Ec(EcFault),
    NotApplied { requested: u8, observed: u8 },
}

impl View for ChargeLimitError {
    type V = ChargeLimitFault;

    open spec fn view(&self) -> ChargeLimitFault {
        match *self {
            ChargeLimitError::OutOfRange(v) => ChargeLimitFault::OutOfRange(v),
            ChargeLimitError::Ec(e) => ChargeLimitFault::Ec(e@),
            ChargeLimitError::NotApplied { requested, observed } => ChargeLimitFault::NotApplied {
                requested,
                observed,
            },
        }
    }
}

impl ChargeLimitFault {
    pub open spec fn text(self) -> Seq<char> {
        match self {
            ChargeLimitFault::OutOfRange(v) => decimal(v as nat)
                + "% is outside the accepted range "@ + decimal(MIN_LIMIT as nat) + "\u{2013}"@
                + decimal(MAX_LIMIT as nat) + "%"@,
            ChargeLimitFault::Ec(e) => e.text(),
            ChargeLimitFault::NotApplied { requested, observed } => "asked the EC for "@ + decimal(
                requested as nat,
            ) + "% and it reports "@ + decimal(observed as nat) + "%"@,
        }
    }
}

impl ChargeLimitError {
    pub fn text(&self) -> (r: String)
        ensures
            r@ == self@.text(),
    {
        match self {
            ChargeLimitError::OutOfRange(v) => {
                let mut s = decimal_text(*v as u64);
                s.append("% is outside the accepted range ");
                s.append(decimal_text(MIN_LIMIT as u64).as_str());
                s.append("\u{2013}");
                s.append(decimal_text(MAX_LIMIT as u64).as_str());
                s.append("%");
                s
            },
            ChargeLimitError::Ec(e) => e.text(),
            ChargeLimitError::NotApplied { requested, observed } => {
                let mut s = "asked the EC for ".to_owned();
                s.append(decimal_text(*requested as u64).as_str());
                s.append("% and it reports ");
                s.append(decimal_text(*observed as u64).as_str());
                s.append("%");
                s
            },
        }
    }
}

/// Reading the maximum.
pub open spec fn read_run(a: Seq<EcReply>) -> EcRun<Result<u8, EcFault>> {
    match get_run(a, 0) {
        EcRun::Send(c) => EcRun::Send(c),
        EcRun::Done(Ok(l), q) => EcRun::Done(Ok(l.max), q),
        EcRun::Done(Err(e), q) => EcRun::Done(Err(e), q),
    }
}

/// Read the limit that actually governs charging on this board.
pub fn read_charge_limit(answers: &[EcAnswer]) -> (r: EcStep<Result<u8, EcError>>)
    ensures
        match read_run(ec_replies(answers@)) {
            EcRun::Send(c) => sends(r, c),
            EcRun::Done(Ok(max), _) => r == EcStep::Done(Ok::<u8, EcError>(max)),
            EcRun::Done(Err(e), _) => r matches EcStep::Done(Err(x)) && x@ == e,
        },
{
    match EcChargeLimit::new().get(answers) {
        EcStep::Send { command, version, out, insize } => EcStep::Send {
            command,
            version,
            out,
            insize,
        },
        EcStep::Done(Ok(l)) => EcStep::Done(Ok(l.max)),
        EcStep::Done(Err(e)) => EcStep::Done(Err(e)),
    }
}

/// How an attempt to set the limit is judged by what the EC reports afterwards.
pub open spec fn judged(percent: u8, after: Result<ChargeLimits, EcFault>) -> Result<
    (),
    ChargeLimitFault,
> {
    match after {
        Err(e) => Err(ChargeLimitFault::Ec(e)),
        Ok(l) => if l.max == percent {
            Ok(())
        } else {
            Err(ChargeLimitFault::NotApplied { requested: percent, observed: l.max })
        },
    }
}

/// How an attempt to set the limit is judged by what the EC reports afterwards.
pub fn judge(percent: u8, after: Result<ChargeLimits, EcError>) -> (r: Result<
    (),
    ChargeLimitError,
>)
    ensures
        match judged(percent, limits_said(after)) {
            Ok(()) => r is Ok,
            Err(e) => r matches Err(x) && x@ == e,
        },
{
    match after {
        Err(e) => Err(ChargeLimitError::Ec(e)),
        Ok(l) => if l.max != percent {
            Err(ChargeLimitError::NotApplied { requested: percent, observed: l.max })
        } else {
            Ok(())
        },
    }
}

/// Setting the limit: nothing is sent for one that is out of range, and one that is in range
/// is judged by the limits read after the set.
pub open spec fn set_limit_run(percent: u8, a: Seq<EcReply>) -> EcRun<
    Result<(), ChargeLimitFault>,
> {
    if !(MIN_LIMIT <= percent <= MAX_LIMIT) {
        EcRun::Done(Err(ChargeLimitFault::OutOfRange(percent)), 0)
    } else {
        match set_max_run(percent, a) {
            EcRun::Send(c) => EcRun::Send(c),
            EcRun::Done(after, n) => EcRun::Done(judged(percent, after), n),
        }
    }
}

/// Set the limit and verify it through the same mechanism.
///
/// On success there is one thing left to do, best-effort: mirror the limit into the
/// kernel's threshold, which governs nothing here but is what desktops display.
pub fn set_charge_limit(percent: u8, answers: &[EcAnswer]) -> (r: EcStep<
    Result<FileOp, ChargeLimitError>,
>)
    ensures
        match set_limit_run(percent, ec_replies(answers@)) {
            EcRun::Send(c) => sends(r, c),
            EcRun::Done(Ok(()), _) => r matches EcStep::Done(Ok(op)) && op@ == Op::Write(
                attribute(),
                decimal(percent as nat),
            ),
            EcRun::Done(Err(e), _) => r matches EcStep::Done(Err(x)) && x@ == e,
        },
{
    if percent < MIN_LIMIT || percent > MAX_LIMIT {
        return EcStep::Done(Err(ChargeLimitError::OutOfRange(percent)));
    }
    match EcChargeLimit::new().set_max(percent, answers) {
        EcStep::Send { command, version, out, insize } => EcStep::Send {
            command,
            version,
            out,
            insize,
        },
        EcStep::Done(after) => match judge(percent, after) {
            Err(e) => EcStep::Done(Err(e)),
            Ok(()) => {
                let mut path = BATTERY.to_owned();
                path.append(THRESHOLD);
                EcStep::Done(Ok(FileOp::Write(path, decimal_text(percent as u64))))
            },
        },
    }
}

/// A limit out of range is refused with nothing sent, whatever the EC would have said. One in
/// range is applied exactly where the EC reports it back after the set.
pub proof fn a_charge_limit_is_confirmed(percent: u8, a: Seq<EcReply>)
    ensures
        !(MIN_LIMIT <= percent <= MAX_LIMIT) ==> set_limit_run(percent, a) == EcRun::Done(
            Err::<(), ChargeLimitFault>(ChargeLimitFault::OutOfRange(percent)),
            0,
        ),
        set_limit_run(percent, a) matches EcRun::Done(Ok(()), n) ==> n == 3 && a.len() >= 3 && (
        limits_from(a[2]) matches Ok(l) && l.max == percent),
{
}

/// Whether the charge limit can be had: why not, if it cannot.
pub open spec fn charge_capability_run(a: Seq<EcReply>) -> EcRun<Option<Seq<char>>> {
    match get_run(a, 0) {
        EcRun::Send(c) => EcRun::Send(c),
        EcRun::Done(Ok(_), q) => EcRun::Done(None, q),
        EcRun::Done(Err(e), q) => EcRun::Done(Some(e.text()), q),
    }
}

/// Whether this machine can have its charge limit set, asked of the EC itself.
pub fn charge_capability(answers: &[EcAnswer]) -> (r: EcStep<Cap>)
    ensures
        match charge_capability_run(ec_replies(answers@)) {
            EcRun::Send(c) => sends(r, c),
            EcRun::Done(why, _) => r matches EcStep::Done(cap) && cap@ == why,
        },
{
    match EcChargeLimit::new().get(answers) {
        EcStep::Send { command, version, out, insize } => EcStep::Send {
            command,
            version,
            out,
            insize,
        },
        EcStep::Done(Ok(_)) => EcStep::Done(Cap::Yes),
        EcStep::Done(Err(e)) => EcStep::Done(Cap::No(e.text())),
    }
}

/// Why fan control over EC commands cannot be offered, if it cannot: the EC has to
/// advertise fan control, and the board's fan has to have been measured.
pub open spec fn fan_capability_reason(a: EcReply, board: Board) -> Option<Seq<char>> {
    match a {
        Err(e) => Some("cannot ask the EC for its features: "@ + e.text()),
        Ok(v) => if v.len() < features::RESPONSE_LEN {
            Some("the EC's feature answer was too short to read"@)
        } else if !features::flag(v, features::PWM_FAN) {
            Some("the EC does not advertise fan PWM control"@)
        } else if board is Unknown {
            Some(
                board.spec_text()
                    + ": the EC can drive the fan, but this board's fan is unmeasured, so no firmware floor can be trusted; see scripts/probe-fan-amd.c"@,
            )
        } else {
            None
        },
    }
}

/// Whether fan control can be offered, given what the EC said of its features.
pub fn judge_features(a: &EcAnswer, board: &Board) -> (r: Cap)
    ensures
        r@ == fan_capability_reason(ec_reply(*a), *board),
{
    let answer = match a {
        Ok(v) => v,
        Err(e) => {
            let mut s = "cannot ask the EC for its features: ".to_owned();
            s.append(e.text().as_str());
            return Cap::No(s);
        },
    };
    match features::has(answer.as_slice(), features::PWM_FAN) {
        Some(true) => {},
        Some(false) => {
            return Cap::No("the EC does not advertise fan PWM control".to_owned());
        },
        None => {
            return Cap::No("the EC's feature answer was too short to read".to_owned());
        },
    }
    if board.profile().is_none() {
        let mut s = board.text();
        s.append(
            ": the EC can drive the fan, but this board's fan is unmeasured, so no firmware floor can be trusted; see scripts/probe-fan-amd.c",
        );
        return Cap::No(s);
    }
    Cap::Yes
}

/// The command that asks for the EC's features.
pub open spec fn features_call() -> Call {
    Call {
        command: features::GET_FEATURES,
        version: 0,
        out: seq![],
        insize: features::RESPONSE_LEN,
    }
}

/// Whether fan control can be had: why not, if it cannot.
pub open spec fn fan_capability_run(board: Board, a: Seq<EcReply>) -> EcRun<Option<Seq<char>>> {
    match asked(a, 0, features_call()) {
        EcRun::Send(c) => EcRun::Send(c),
        EcRun::Done(r, q) => EcRun::Done(fan_capability_reason(r, board), q),
    }
}

/// Whether fan control over EC commands can be offered, asked of the EC itself.
pub fn fan_capability(board: &Board, answers: &[EcAnswer]) -> (r: EcStep<Cap>)
    ensures
        match fan_capability_run(*board, ec_replies(answers@)) {
            EcRun::Send(c) => sends(r, c),
            EcRun::Done(why, _) => r matches EcStep::Done(cap) && cap@ == why,
        },
{
    if answers.len() == 0 {
        let out: Vec<u8> = Vec::new();
        assert(out@ =~= seq![]);
        return EcStep::Send {
            command: features::GET_FEATURES,
            version: 0,
            out,
            insize: features::RESPONSE_LEN,
        };
    }
    EcStep::Done(judge_features(&answers[0], board))
}

/// The number of an ioctl has its direction in the top two bits, then the size, the type and the
/// number, each in its place.
pub proof fn an_ioctl_is_made_of_its_parts(ty: u8, nr: u8, size: usize)
    requires
        size < 0x4000,
    ensures
        ioctl_number(ty, nr, size) == 3 * 0x4000_0000 + size * 0x1_0000 + ty * 0x100 + nr,
{
    let (t, n, s) = (ty as u64, nr as u64, size as u64);
    assert((3u64 << 30) | (s << 16) | (t << 8) | n == 3 * 0x4000_0000u64 + s * 0x1_0000u64 + t
        * 0x100u64 + n) by (bit_vector)
        requires
            s < 0x4000u64,
            t < 0x100u64,
            n < 0x100u64,
    ;
}

/// A framed command is five words, the version, the command, the size out, the size in and room
/// for the result, then what goes out, and zeros up to what comes in.
pub proof fn a_frame_is_five_words_and_the_payload(
    order: ByteOrder,
    command: u32,
    version: u32,
    out: Seq<u8>,
    insize: usize,
)
    requires
        out.len() <= u32::MAX,
        insize <= u32::MAX,
    ensures
        ({
            let f = frame(order, command, version, out, insize as int);
            let n = out.len() as int;
            &&& f.len() == 20 + n || f.len() == 20 + insize
            &&& f.len() >= 20 + n && f.len() >= 20 + insize
            &&& word_at(order, f, 0) == version
            &&& word_at(order, f, 4) == command
            &&& word_at(order, f, 8) == n
            &&& word_at(order, f, 12) == insize
            &&& word_at(order, f, 16) == 0
            &&& f.subrange(20, 20 + n) == out
            &&& forall|i: int| 20 + n <= i < f.len() ==> f[i] == 0
        }),
{
    let f = frame(order, command, version, out, insize as int);
    words_survive_framing(order, version);
    words_survive_framing(order, command);
    words_survive_framing(order, out.len() as u32);
    words_survive_framing(order, insize as u32);
    words_survive_framing(order, 0);
    assert(f.subrange(20, 20 + out.len() as int) =~= out);
}

/// A little-endian word is its bytes from the lowest, a big-endian one from the highest.
pub proof fn a_word_is_its_bytes(n: u32)
    ensures
        ({
            let (l, b) = (
                word_bytes(ByteOrder::Little, n as int),
                word_bytes(ByteOrder::Big, n as int),
            );
            &&& l.len() == 4 && b.len() == 4
            &&& n == l[0] + 0x100 * l[1] + 0x1_0000 * l[2] + 0x100_0000 * l[3]
            &&& forall|i: int| 0 <= i < 4 ==> #[trigger] b[i] == l[3 - i]
        }),
{
}

/// A command comes back with what stands behind the header, as many bytes as were asked for,
/// where its result is zero and as many came. Any other result is the EC's refusal, and too few
/// bytes are told, as many as came.
pub proof fn a_response_is_what_stands_behind_the_header(
    order: ByteOrder,
    buf: Seq<u8>,
    count: usize,
    insize: usize,
)
    requires
        buf.len() >= HEADER_LEN + insize,
        buf.len() <= u32::MAX,
    ensures
        ({
            let r = unframed(order, buf, count as int, buf.len() - HEADER_LEN, insize as int);
            let code = word_at(order, buf, 16);
            &&& code != 0 ==> r == Err::<Seq<u8>, EcError>(EcError::Rejected(code as u32))
            &&& code == 0 && count >= insize ==> (r matches Ok(v) && v.len() == insize && forall|
                i: int,
            |
                0 <= i < insize ==> #[trigger] v[i] == buf[20 + i])
            &&& code == 0 && count < insize ==> r == Err::<Seq<u8>, EcError>(
                EcError::ShortResponse { want: insize, got: count },
            )
        }),
{
}

/// Reading the charge limit sends the get and gives the first byte of the answer. An answer of
/// fewer than two bytes is too short.
pub proof fn the_limit_is_the_first_byte(v: Seq<u8>, e: EcFault)
    requires
        v.len() <= usize::MAX,
    ensures
        read_run(seq![]) matches EcRun::Send(c) && c.command == 0x3E03 && c.version == 0 && c.insize
            == 2 && c.out == seq![8u8, 0xFFu8, 0xFFu8],
        v.len() >= 2 ==> read_run(seq![Ok(v)]) == EcRun::Done(Ok::<u8, EcFault>(v[0]), 1),
        v.len() < 2 ==> read_run(seq![Ok(v)]) == EcRun::Done(
            Err::<u8, EcFault>(EcFault::ShortResponse { want: 2, got: v.len() as usize }),
            1,
        ),
        read_run(seq![Err(e)]) == EcRun::Done(Err::<u8, EcFault>(e), 1),
{
}

/// Setting a charge limit in range reads the limits, sets the new maximum with the minimum that
/// was read, and reads again. It is done where the maximum then read is the one that was set, and
/// otherwise that other one is told.
pub proof fn a_limit_goes_out_with_the_minimum_that_was_read(
    percent: u8,
    max: u8,
    min: u8,
    v: Seq<u8>,
    after: u8,
    least: u8,
)
    requires
        20 <= percent <= 100,
    ensures
        ({
            let first: EcReply = Ok(seq![max, min]);
            let last: EcReply = Ok(seq![after, least]);
            &&& set_limit_run(percent, seq![]) matches EcRun::Send(c) && c.command == 0x3E03 && c.out
                == seq![8u8, 0xFFu8, 0xFFu8] && c.insize == 2
            &&& set_limit_run(percent, seq![first]) matches EcRun::Send(c) && c.command == 0x3E03
                && c.version == 0 && c.out == seq![2u8, percent, min] && c.insize == 0
            &&& set_limit_run(percent, seq![first, Ok(v)]) matches EcRun::Send(c) && c.command
                == 0x3E03 && c.out == seq![8u8, 0xFFu8, 0xFFu8] && c.insize == 2
            &&& set_limit_run(percent, seq![first, Ok(v), last]) == EcRun::Done(
                if after == percent {
                    Ok::<(), ChargeLimitFault>(())
                } else {
                    Err(ChargeLimitFault::NotApplied { requested: percent, observed: after })
                },
                3,
            )
        }),
{
}

/// Fan control over the EC can be had exactly where the EC answers in full, says that it drives a
/// fan, and the board's fan was measured.
pub proof fn the_ecs_fan_is_offered_only_where_measured(board: Board, a: EcReply)
    ensures
        fan_capability_reason(a, board) is None <==> (a matches Ok(v) && v.len() >= 8 && (v[0] / 4)
            % 2 == 1 && !(board is Unknown)),
{
    if let Ok(v) = a {
        if v.len() >= 8 {
            features::a_flag_is_the_bit_of_its_number(v, features::PWM_FAN);
        }
    }
}

}
