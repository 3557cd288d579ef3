//! The control channel of the service: frames, requests, and what an exchange amounts to.
//!
//! A frame is the length of its payload, as four bytes with the highest first, and the payload.
use vstd::prelude::*;
use vstd::string::*;
use vstd::utf8::*;

use crate::text;
use crate::variant::Variant;

verus! {

/// The largest payload that is read.
pub const MAX_FRAME: u32 = 0x100_0000;

/// Asks whether the service runs.
pub const STATUS_METHOD: &'static str = "system.status";

/// Asks the service to end.
pub const SHUTDOWN_METHOD: &'static str = "system.shutdown";

/// The name of the service's control pipe.
pub fn ctrl_endpoint(v: &Variant) -> (r: String)
    ensures
        r@ == "\\\\.\\pipe\\wind_input"@ + v.pipe_suffix@ + "_ctrl"@,
{
    text::cat3("\\\\.\\pipe\\wind_input", v.pipe_suffix.as_str(), "_ctrl")
}

/// The path of the service's control socket, on systems without named pipes; `runtime_dir` is what
/// `XDG_RUNTIME_DIR` holds.
pub fn ctrl_socket(v: &Variant, runtime_dir: Option<&str>) -> (r: String)
    ensures
        r@ == match crate::variant::opt_view(runtime_dir) {
            Some(dir) => dir,
            None => "/tmp"@,
        } + "/wind_input"@ + v.pipe_suffix@ + "_ctrl.sock"@,
{
    let dir = match runtime_dir {
        Some(dir) => dir,
        None => "/tmp",
    };
    text::cat4(dir, "/wind_input", v.pipe_suffix.as_str(), "_ctrl.sock")
}

/// A number below 2^32 as four bytes, the highest first.
pub open spec fn be_bytes(n: nat) -> Seq<u8> {
    seq![
        (n / 0x100_0000 % 256) as u8,
        (n / 0x1_0000 % 256) as u8,
        (n / 0x100 % 256) as u8,
        (n % 256) as u8,
    ]
}

/// The number that four bytes stand for, the highest first.
pub open spec fn be_value(b: Seq<u8>) -> nat {
    (b[0] * 0x100_0000 + b[1] * 0x1_0000 + b[2] * 0x100 + b[3]) as nat
}

/// A frame. A payload of four gigabytes and more has its length cut to 32 bits.
pub open spec fn frame(payload: Seq<u8>) -> Seq<u8> {
    be_bytes(payload.len() % 0x1_0000_0000) + payload
}

/// Appends a frame.
pub fn write_frame(out: &mut Vec<u8>, payload: &[u8])
    ensures
        final(out)@ == old(out)@ + frame(payload@),
{
    let ghost start = out@;
    let n: u32 = ((payload.len() as u64) % 0x1_0000_0000u64) as u32;
    out.push((n / 0x100_0000 % 256) as u8);
    out.push((n / 0x1_0000 % 256) as u8);
    out.push((n / 0x100 % 256) as u8);
    out.push((n % 256) as u8);
    let ghost head = out@;
    assert(head =~= start + be_bytes(n as nat));
    let mut i: usize = 0;
    assert(out@ =~= head + payload@.take(0));
    while i < payload.len()
        invariant
            i <= payload@.len(),
            out@ == head + payload@.take(i as int),
        decreases payload@.len() - i,
    {
        out.push(payload[i]);
        i = i + 1;
        assert(out@ =~= head + payload@.take(i as int));
    }
    assert(payload@.take(i as int) =~= payload@);
    assert(out@ =~= start + frame(payload@));
}

/// Why a frame cannot be read.
#[derive(Debug, Clone, Copy, PartialEq, Eq, Structural)]
pub enum FrameError {
    /// The bytes end within the frame.
    Short,
    /// The payload is larger than is read.
    TooLarge(u32),
}

impl FrameError {
    pub open spec fn text(self) -> Seq<char> {
        match self {
            FrameError::Short => "failed to fill whole buffer"@,
            FrameError::TooLarge(n) => "帧过大: "@ + text::decimal(n as nat) + " 字节"@,
        }
    }

    pub fn message(&self) -> (r: String)
        ensures
            r@ == self.text(),
    {
        match self {
            FrameError::Short => String::from_str("failed to fill whole buffer"),
            FrameError::TooLarge(n) => {
                let number = text::decimal_text(*n as u128);
                text::cat3("帧过大: ", number.as_str(), " 字节")
            },
        }
    }
}

/// The length of the payload behind a header of four bytes.
pub fn frame_len(header: &[u8]) -> (r: Result<u32, FrameError>)
    requires
        header@.len() == 4,
    ensures
        r == if be_value(header@) > MAX_FRAME {
            Err(FrameError::TooLarge(be_value(header@) as u32))
        } else {
            Ok(be_value(header@) as u32)
        },
{
    let n: u32 = (header[0] as u32) * 0x100_0000 + (header[1] as u32) * 0x1_0000 + (header[2] as u32)
        * 0x100 + (header[3] as u32);
    if n > MAX_FRAME {
        Err(FrameError::TooLarge(n))
    } else {
        Ok(n)
    }
}

/// Bytes that are read from front to back.
#[derive(Debug)]
pub struct Input {
    pub data: Vec<u8>,
    pub pos: usize,
}

/// The frame that begins at `pos`.
pub open spec fn frame_at(data: Seq<u8>, pos: int) -> Result<Seq<u8>, FrameError> {
    let n = be_value(data.subrange(pos, pos + 4));
    if data.len() - pos < 4 {
        Err(FrameError::Short)
    } else if n > MAX_FRAME {
        Err(FrameError::TooLarge(n as u32))
    } else if data.len() - pos - 4 < n {
        Err(FrameError::Short)
    } else {
        Ok(data.subrange(pos + 4, pos + 4 + n))
    }
}

impl Input {
    pub open spec fn well_formed(self) -> bool {
        self.pos <= self.data@.len()
    }

    pub fn new(data: Vec<u8>) -> (r: Input)
        ensures
            r.well_formed(),
            r.data == data,
            r.pos == 0,
    {
        Input { data, pos: 0 }
    }
}

fn part_of(data: &Vec<u8>, from: usize, to: usize) -> (r: Vec<u8>)
    requires
        from <= to <= data@.len(),
    ensures
        r@ == data@.subrange(from as int, to as int),
{
    let mut r: Vec<u8> = Vec::new();
    let mut i: usize = from;
    while i < to
        invariant
            from <= i <= to <= data@.len(),
            r@ == data@.subrange(from as int, i as int),
        decreases to - i,
    {
        r.push(data[i]);
        i = i + 1;
        assert(r@ =~= data@.subrange(from as int, i as int));
    }
    r
}

/// Reads the next frame and moves behind it. Where that fails, a header that is there has been
/// read.
pub fn read_frame(input: &mut Input) -> (r: Result<Vec<u8>, FrameError>)
    requires
        old(input).well_formed(),
    ensures
        final(input).well_formed(),
        final(input).data == old(input).data,
        match (r, frame_at(old(input).data@, old(input).pos as int)) {
            (Ok(p), Ok(q)) => p@ == q && final(input).pos == old(input).pos + 4 + q.len(),
            (Err(e), Err(f)) => e == f && final(input).pos == old(input).pos + (if old(
                input,
            ).data@.len() - old(input).pos < 4 {
                0int
            } else {
                4int
            }),
            _ => false,
        },
{
    let len: usize = input.data.len();
    let pos: usize = input.pos;
    if len - pos < 4 {
        return Err(FrameError::Short);
    }
    let header = part_of(&input.data, pos, pos + 4);
    input.pos = pos + 4;
    let n: u32 = match frame_len(header.as_slice()) {
        Ok(n) => n,
        Err(e) => {
            return Err(e);
        },
    };
    let size: usize = n as usize;
    if len - (pos + 4) < size {
        return Err(FrameError::Short);
    }
    let payload = part_of(&input.data, pos + 4, pos + 4 + size);
    input.pos = pos + 4 + size;
    Ok(payload)
}

proof fn be_roundtrip(n: nat)
    requires
        n < 0x1_0000_0000,
    ensures
        be_value(be_bytes(n)) == n,
{
}

/// A frame that was written is read back whole, wherever it stands among other bytes; one whose
/// payload is too large is refused.
pub proof fn frames_read_back(before: Seq<u8>, payload: Seq<u8>, after: Seq<u8>)
    requires
        payload.len() < 0x1_0000_0000,
    ensures
        frame_at(before + frame(payload) + after, before.len() as int) == if payload.len() <= MAX_FRAME {
            Ok::<Seq<u8>, FrameError>(payload)
        } else {
            Err(FrameError::TooLarge(payload.len() as u32))
        },
{
    let data = before + frame(payload) + after;
    let pos = before.len() as int;
    assert(data.subrange(pos, pos + 4) =~= be_bytes(payload.len()));
    be_roundtrip(payload.len());
    assert(data.subrange(pos + 4, pos + 4 + payload.len()) =~= payload);
}

/// A hexadecimal digit, in lower case.
pub open spec fn hex_digit(d: int) -> char {
    if d < 10 {
        (48 + d) as u8 as char
    } else {
        (87 + d) as u8 as char
    }
}

/// A character within a JSON string.
pub open spec fn json_char(c: char) -> Seq<char> {
    if c == '"' || c == '\\' {
        seq!['\\', c]
    } else if c as u32 == 0x8 {
        seq!['\\', 'b']
    } else if c as u32 == 0x9 {
        seq!['\\', 't']
    } else if c as u32 == 0xa {
        seq!['\\', 'n']
    } else if c as u32 == 0xc {
        seq!['\\', 'f']
    } else if c as u32 == 0xd {
        seq!['\\', 'r']
    } else if (c as u32) < 0x20 {
        seq!['\\', 'u', '0', '0', hex_digit(c as int / 16), hex_digit(c as int % 16)]
    } else {
        seq![c]
    }
}

pub open spec fn json_chars(s: Seq<char>) -> Seq<char>
    decreases s.len(),
{
    if s.len() == 0 {
        seq![]
    } else {
        json_chars(s.drop_last()) + json_char(s.last())
    }
}

/// A text as a JSON string.
pub open spec fn json_string(s: Seq<char>) -> Seq<char> {
    seq!['"'] + json_chars(s) + seq!['"']
}

/// Calls `serde_json::to_string` on a text, which never fails there. Claimed: the text stands in
/// quotation marks, with the quotation mark, the backslash and the control characters escaped and
/// every other character as it is.
#[verifier::external_body]
fn to_json(s: &str) -> (r: String)
    ensures
        r@ == json_string(s@),
{
    serde_json::to_string(s).unwrap_or_default()
}

/// The text of a request; `params` is a JSON text.
pub open spec fn request_text(method: Seq<char>, params: Seq<char>) -> Seq<char> {
    "{\"version\":1,\"id\":1,\"method\":"@ + json_string(method) + ",\"params\":"@ + params + "}"@
}

/// The payload of a request; `params` is a JSON text.
pub fn request_payload(method: &str, params: &str) -> (r: Vec<u8>)
    ensures
        r@ == encode_utf8(request_text(method@, params@)),
{
    let name = to_json(method);
    let whole = text::cat5(
        "{\"version\":1,\"id\":1,\"method\":",
        name.as_str(),
        ",\"params\":",
        params,
        "}",
    );
    whole.as_str().as_bytes_vec()
}

/// The frame of a request.
pub fn request_frame(method: &str, params: &str) -> (r: Vec<u8>)
    ensures
        r@ == frame(encode_utf8(request_text(method@, params@))),
{
    let payload = request_payload(method, params);
    let mut r: Vec<u8> = Vec::new();
    write_frame(&mut r, payload.as_slice());
    assert(r@ =~= frame(payload@));
    r
}

/// What came of an exchange with the service.
#[derive(Debug)]
pub enum Exchange {
    NotConnected(String),
    NotSent(String),
    NotReceived(String),
    NotParsed(String),
    /// The service answered, with a result as a JSON text, or with an error.
    Answered { result: Option<String>, error: Option<String> },
}

pub open spec fn outcome_of(endpoint: Seq<char>, x: Exchange) -> Result<Seq<char>, Seq<char>> {
    match x {
        Exchange::NotConnected(e) => Err("连接 core 失败 ("@ + endpoint + "): "@ + e@),
        Exchange::NotSent(e) => Err("发送失败: "@ + e@),
        Exchange::NotReceived(e) => Err("读取失败: "@ + e@),
        Exchange::NotParsed(e) => Err("解析响应失败: "@ + e@),
        Exchange::Answered { result, error } => match (error, result) {
            (Some(e), _) => Err(e@),
            (None, Some(x)) => Ok(x@),
            (None, None) => Ok("null"@),
        },
    }
}

/// What an exchange amounts to: the result, where the service answered without an error.
pub fn call(endpoint: &str, x: Exchange) -> (r: Result<String, String>)
    ensures
        match r {
            Ok(s) => outcome_of(endpoint@, x) == Ok::<Seq<char>, Seq<char>>(s@),
            Err(e) => outcome_of(endpoint@, x) == Err::<Seq<char>, Seq<char>>(e@),
        },
{
    match x {
        Exchange::NotConnected(e) => Err(
            text::cat4("连接 core 失败 (", endpoint, "): ", e.as_str()),
        ),
        Exchange::NotSent(e) => Err(text::cat2("发送失败: ", e.as_str())),
        Exchange::NotReceived(e) => Err(text::cat2("读取失败: ", e.as_str())),
        Exchange::NotParsed(e) => Err(text::cat2("解析响应失败: ", e.as_str())),
        Exchange::Answered { result, error } => match error {
            Some(e) => Err(e),
            None => match result {
                Some(s) => Ok(s),
                None => Ok(String::from_str("null")),
            },
        },
    }
}

/// Whether an exchange succeeded: asked for its state, the service runs; asked to end, it will.
pub open spec fn succeeded(x: Exchange) -> bool {
    x matches Exchange::Answered { error, .. } && error is None
}

/// Whether the service runs, given what came of asking for its state.
pub fn is_running(v: &Variant, x: Exchange) -> (r: bool)
    ensures
        r == succeeded(x),
{
    let endpoint = ctrl_endpoint(v);
    call(endpoint.as_str(), x).is_ok()
}

/// Whether the service will end, given what came of asking it to.
pub fn try_shutdown(v: &Variant, x: Exchange) -> (r: bool)
    ensures
        r == succeeded(x),
{
    let endpoint = ctrl_endpoint(v);
    call(endpoint.as_str(), x).is_ok()
}

/// The channels of the two builds are different.
pub proof fn channels_are_disjoint(dev: Variant, release: Variant)
    requires
        dev.is_dev,
        !release.is_dev,
        dev.well_formed(),
        release.well_formed(),
    ensures
        "\\\\.\\pipe\\wind_input"@ + dev.pipe_suffix@ + "_ctrl"@ != "\\\\.\\pipe\\wind_input"@
            + release.pipe_suffix@ + "_ctrl"@,
{
    reveal_strlit("_dev");
    reveal_strlit("");
    let a = "\\\\.\\pipe\\wind_input"@ + dev.pipe_suffix@ + "_ctrl"@;
    let b = "\\\\.\\pipe\\wind_input"@ + release.pipe_suffix@ + "_ctrl"@;
    assert(a.len() == b.len() + 4);
}

/// What stands of a frame before its end is no frame, however much of it is there.
#[verifier::spinoff_prover]
#[verifier::rlimit(40)]
pub proof fn cut_frames_are_short(before: Seq<u8>, payload: Seq<u8>, n: int)
    requires
        payload.len() <= MAX_FRAME,
        0 <= n < payload.len() + 4,
    ensures
        frame_at(before + frame(payload).take(n), before.len() as int) == Err::<Seq<u8>, FrameError>(
            FrameError::Short,
        ),
{
    let data = before + frame(payload).take(n);
    let pos = before.len() as int;
    if n >= 4 {
        assert(data.subrange(pos, pos + 4) =~= be_bytes(payload.len()));
        be_roundtrip(payload.len());
    }
}

/// Frames that were written one behind the other are read one behind the other: behind the first,
/// the second begins.
#[verifier::spinoff_prover]
#[verifier::rlimit(40)]
pub proof fn frames_follow_each_other(first: Seq<u8>, second: Seq<u8>)
    requires
        first.len() <= MAX_FRAME,
        second.len() <= MAX_FRAME,
    ensures
        frame_at(frame(first) + frame(second), 0) == Ok::<Seq<u8>, FrameError>(first),
        frame_at(frame(first) + frame(second), 4 + first.len() as int) == Ok::<Seq<u8>, FrameError>(
            second,
        ),
{
    let none = Seq::<u8>::empty();
    let a = frame(first);
    let b = frame(second);
    assert(none + a + b =~= a + b);
    assert(a + b + none =~= a + b);
    assert(a.len() == 4 + first.len());
    assert(frame_at(a + b, 0) == Ok::<Seq<u8>, FrameError>(first)) by {
        frames_read_back(none, first, b);
    }
    assert(frame_at(a + b, a.len() as int) == Ok::<Seq<u8>, FrameError>(second)) by {
        frames_read_back(a, second, none);
    }
}

/// A text without quotation marks, backslashes and control characters stands in a request as it is.
pub proof fn plain_text_stays(s: Seq<char>)
    requires
        forall|i: int| 0 <= i < s.len() ==> (#[trigger] s[i]) as u32 >= 0x20 && s[i] != '"' && s[i] != '\\',
    ensures
        json_string(s) == seq!['"'] + s + seq!['"'],
    decreases s.len(),
{
    plain_chars_stay(s);
}

proof fn plain_chars_stay(s: Seq<char>)
    requires
        forall|i: int| 0 <= i < s.len() ==> (#[trigger] s[i]) as u32 >= 0x20 && s[i] != '"' && s[i] != '\\',
    ensures
        json_chars(s) == s,
    decreases s.len(),
{
    if s.len() > 0 {
        let rest = s.drop_last();
        assert forall|i: int| 0 <= i < rest.len() implies (#[trigger] rest[i]) as u32 >= 0x20 && rest[i]
            != '"' && rest[i] != '\\' by {
            assert(rest[i] == s[i]);
        }
        plain_chars_stay(rest);
        let c = s[s.len() - 1];
        assert(json_chars(s) =~= rest + seq![c]);
        assert(rest + seq![c] =~= s);
    } else {
        assert(s =~= seq![]);
    }
}

/// An exchange gives a result exactly where the service answered without an error: what it answered,
/// or `null` where it answered nothing. Otherwise it gives the service's error, or the reason why
/// there was no answer.
pub proof fn exchange_gives_the_answer(endpoint: Seq<char>, x: Exchange)
    ensures
        succeeded(x) == (outcome_of(endpoint, x) is Ok),
        match x {
            Exchange::Answered { result, error } => match error {
                Some(e) => outcome_of(endpoint, x) == Err::<Seq<char>, Seq<char>>(e@),
                None => match result {
                    Some(s) => outcome_of(endpoint, x) == Ok::<Seq<char>, Seq<char>>(s@),
                    None => outcome_of(endpoint, x) == Ok::<Seq<char>, Seq<char>>("null"@),
                },
            },
            Exchange::NotConnected(e) => outcome_of(endpoint, x) == Err::<Seq<char>, Seq<char>>(
                "连接 core 失败 ("@ + endpoint + "): "@ + e@,
            ),
            Exchange::NotSent(e) => outcome_of(endpoint, x) == Err::<Seq<char>, Seq<char>>(
                "发送失败: "@ + e@,
            ),
            Exchange::NotReceived(e) => outcome_of(endpoint, x) == Err::<Seq<char>, Seq<char>>(
                "读取失败: "@ + e@,
            ),
            Exchange::NotParsed(e) => outcome_of(endpoint, x) == Err::<Seq<char>, Seq<char>>(
                "解析响应失败: "@ + e@,
            ),
        },
{
}

/// The length of a payload stands in front of it, with the highest byte first.
#[verifier::spinoff_prover]
#[verifier::rlimit(40)]
pub proof fn length_comes_first(payload: Seq<u8>)
    ensures
        ({
            let f = frame(payload);
            &&& f.len() == 4 + payload.len()
            &&& f.skip(4) == payload
            &&& payload.len() < 0x1_0000_0000 ==> f[0] * 0x100_0000 + f[1] * 0x1_0000 + f[2] * 0x100 + f[3]
                == payload.len()
        }),
{
    let f = frame(payload);
    assert(f.skip(4) =~= payload);
    if payload.len() < 0x1_0000_0000 {
        be_roundtrip(payload.len());
        assert(f[0] == be_bytes(payload.len())[0]);
        assert(f[1] == be_bytes(payload.len())[1]);
        assert(f[2] == be_bytes(payload.len())[2]);
        assert(f[3] == be_bytes(payload.len())[3]);
    }
}

/// A request holds the version, a number, the name of the method in quotation marks, and its
/// parameters as they are.
pub proof fn request_names_the_method(method: Seq<char>, params: Seq<char>)
    requires
        forall|i: int|
            0 <= i < method.len() ==> (#[trigger] method[i]) as u32 >= 0x20 && method[i] != '"' && method[i]
                != '\\',
    ensures
        request_text(method, params) == "{\"version\":1,\"id\":1,\"method\":\""@ + method
            + "\",\"params\":"@ + params + "}"@,
{
    plain_text_stays(method);
    reveal_strlit("{\"version\":1,\"id\":1,\"method\":");
    reveal_strlit("{\"version\":1,\"id\":1,\"method\":\"");
    reveal_strlit(",\"params\":");
    reveal_strlit("\",\"params\":");
    let head = "{\"version\":1,\"id\":1,\"method\":"@;
    assert("{\"version\":1,\"id\":1,\"method\":\""@ =~= head + seq!['"']);
    assert("\",\"params\":"@ =~= seq!['"'] + ",\"params\":"@);
    assert(request_text(method, params) =~= "{\"version\":1,\"id\":1,\"method\":\""@ + method
        + "\",\"params\":"@ + params + "}"@);
}

/// A frame that is refused tells its size.
pub proof fn refused_frames_tell_their_size(n: u32)
    ensures
        FrameError::TooLarge(n).text() == "帧过大: "@ + text::decimal(n as nat) + " 字节"@,
        FrameError::Short.text() == "failed to fill whole buffer"@,
{
}

/// Payloads up to sixteen megabytes are read, and larger ones are refused.
#[verifier::spinoff_prover]
#[verifier::rlimit(40)]
pub proof fn sixteen_megabytes_are_read(payload: Seq<u8>)
    requires
        payload.len() < 0x1_0000_0000,
    ensures
        (frame_at(frame(payload), 0) is Ok) == (payload.len() <= 16 * 1024 * 1024),
{
    let none = Seq::<u8>::empty();
    frames_read_back(none, payload, none);
    assert(none + frame(payload) + none =~= frame(payload));
}

} // verus!
