//! Recognizing the M2M node for one codec, since node numbering is per SoC.

use vstd::prelude::*;
use vstd::string::*;

use super::format::Dir;
use super::fourcc::{contains, join_fourcc, spellings, H264, NV12, NV12M, YUV420, YUV420M};
use crate::error::Error;
use crate::message::{lemma_says, says};
use crate::text::{decimal, hex, push_decimal, push_hex, push_signed, signed};

verus! {

/// `V4L2_CAP_VIDEO_M2M_MPLANE`.
pub const CAP_M2M_MPLANE: u32 = 0x4000;

/// `V4L2_CAP_VIDEO_M2M`.
pub const CAP_M2M: u32 = 0x8000;

/// `V4L2_CAP_DEVICE_CAPS`: the per-node capabilities are filled in.
pub const CAP_DEVICE_CAPS: u32 = 0x8000_0000;

/// The capabilities of this node specifically, rather than of the driver as a
/// whole. A codec driver registers several nodes off one `v4l2_capability`, so
/// only `device_caps` says what *this* one does.
pub fn capabilities(driver: u32, device: u32) -> (caps: u32)
    ensures
        caps == if driver & CAP_DEVICE_CAPS == 0 {
            driver
        } else {
            device
        },
{
    if driver & CAP_DEVICE_CAPS == 0 {
        driver
    } else {
        device
    }
}

/// Refuse a node without multi-planar M2M.
///
/// Single-planar M2M exists, but no codec driver ships only that, and supporting
/// it would double every queue path for no hardware.
pub fn check_capabilities(caps: u32) -> (r: Result<(), Error>)
    ensures
        r == if caps & CAP_M2M_MPLANE != 0 {
            Ok(())
        } else if caps & CAP_M2M != 0 {
            Err(Error::SinglePlanar)
        } else {
            Err(Error::NotM2m)
        },
{
    if caps & CAP_M2M_MPLANE == 0 {
        return Err(
            if caps & CAP_M2M == 0 {
                Error::NotM2m
            } else {
                Error::SinglePlanar
            },
        );
    }
    Ok(())
}

/// The milliseconds a wait of `millis` asks `poll` for, which takes an `int`.
pub fn poll_timeout(millis: u128) -> (timeout: i32)
    ensures
        timeout == if millis < i32::MAX {
            millis as int
        } else {
            i32::MAX as int
        },
{
    if millis < i32::MAX as u128 {
        millis as i32
    } else {
        i32::MAX
    }
}

/// The numerator and denominator of the seconds one frame lasts, which is how
/// `VIDIOC_S_PARM` takes a framerate.
pub fn time_per_frame(framerate: u32) -> (r: (u32, u32))
    ensures
        r == (1u32, framerate),
{
    (1, framerate)
}

/// How to recognize the M2M node for one codec.
#[derive(Clone, Debug)]
pub struct Role {
    /// Environment variable naming a node directly, for a driver whose format
    /// enumeration doesn't match what it can actually do.
    pub env: &'static str,
    /// Fourccs the OUTPUT queue has to accept, any one of them.
    pub input: Vec<u32>,
    /// Fourccs the CAPTURE queue has to produce, any one of them.
    pub output: Vec<u32>,
}

/// Whether two lists of fourccs share one.
pub open spec fn overlap(wanted: Seq<u32>, offered: Seq<u32>) -> bool {
    exists|code: u32| wanted.contains(code) && #[trigger] offered.contains(code)
}

impl Role {
    /// The codes the queue has to handle, any one of them.
    pub open spec fn wanted(&self, dir: Dir) -> Seq<u32> {
        match dir {
            Dir::Output => self.input@,
            Dir::Capture => self.output@,
        }
    }

    /// Which node encodes: one that takes raw 4:2:0 in and gives H.264 back.
    pub fn encoder() -> (role: Role)
        ensures
            role.env@ == "MOQ_V4L2_ENCODER"@,
            role.input@ == seq![NV12, NV12M, YUV420, YUV420M],
            role.output@ == seq![H264],
    {
        let role = Role {
            env: "MOQ_V4L2_ENCODER",
            input: vec![NV12, NV12M, YUV420, YUV420M],
            output: vec![H264],
        };
        assert(role.input@ =~= seq![NV12, NV12M, YUV420, YUV420M]);
        assert(role.output@ =~= seq![H264]);
        role
    }

    /// Which node decodes: one that takes H.264 in and gives raw 4:2:0 back.
    pub fn decoder() -> (role: Role)
        ensures
            role.env@ == "MOQ_V4L2_DECODER"@,
            role.input@ == seq![H264],
            role.output@ == seq![NV12, NV12M, YUV420, YUV420M],
    {
        let role = Role {
            env: "MOQ_V4L2_DECODER",
            input: vec![H264],
            output: vec![NV12, NV12M, YUV420, YUV420M],
        };
        assert(role.input@ =~= seq![H264]);
        assert(role.output@ =~= seq![NV12, NV12M, YUV420, YUV420M]);
        role
    }

    /// Whether a queue offering `offered` does what the role needs of it. A node
    /// serves a role when both of its queues do.
    pub fn check(&self, dir: Dir, offered: &[u32]) -> (r: Result<(), Error>)
        ensures
            match r {
                Ok(()) => overlap(self.wanted(dir), offered@),
                Err(Error::Unsuitable { what }) => {
                    &&& !overlap(self.wanted(dir), offered@)
                    &&& what@ == "offers "@ + spellings(offered@) + " where "@ + spellings(
                        self.wanted(dir),
                    ) + " is needed"@
                },
                Err(_) => false,
            },
    {
        let wanted = match dir {
            Dir::Output => self.input.as_slice(),
            Dir::Capture => self.output.as_slice(),
        };
        let mut at: usize = 0;
        while at < wanted.len()
            invariant
                wanted@ == self.wanted(dir),
                at <= wanted@.len(),
                forall|i: int| 0 <= i < at ==> !offered@.contains(#[trigger] wanted@[i]),
            decreases wanted@.len() - at,
        {
            if contains(offered, wanted[at]) {
                assert(wanted@.contains(wanted@[at as int]));
                return Ok(());
            }
            at = at + 1;
        }
        let mut what = String::new();
        what.append("offers ");
        what.append(join_fourcc(offered).as_str());
        what.append(" where ");
        what.append(join_fourcc(wanted).as_str());
        what.append(" is needed");
        proof {
            assert(what@ =~= "offers "@ + spellings(offered@) + " where "@ + spellings(
                self.wanted(dir),
            ) + " is needed"@);
            if overlap(self.wanted(dir), offered@) {
                let code = choose|code: u32|
                    wanted@.contains(code) && #[trigger] offered@.contains(code);
                let i = choose|i: int| 0 <= i < wanted@.len() && wanted@[i] == code;
                assert(!offered@.contains(wanted@[i]));
            }
        }
        Err(Error::Unsuitable { what })
    }
}

/// Something asked of a device node.
#[derive(Clone, Copy, Debug, PartialEq, Eq, Structural)]
pub enum Operation {
    GetFormat,
    SetFormat,
    SetFramerate,
    SetControl { id: u32, value: i32 },
    RequestBuffers { count: u32 },
    QueryBuffer { index: u32 },
    MapNothing,
    MapBuffer { index: u32 },
    QueueBuffer { index: u32 },
    DequeueBuffer,
    StreamOn,
    StreamOff,
}

impl Operation {
    /// What the operation is called in an error.
    pub open spec fn called(self) -> Seq<char> {
        match self {
            Operation::GetFormat => "G_FMT"@,
            Operation::SetFormat => "S_FMT"@,
            Operation::SetFramerate => "S_PARM"@,
            Operation::SetControl { id, value } => "S_CTRL "@ + hex(id as nat) + " = "@ + signed(
                value as int,
            ),
            Operation::RequestBuffers { count } => "REQBUFS "@ + decimal(count as nat),
            Operation::QueryBuffer { index } => "QUERYBUF "@ + decimal(index as nat),
            Operation::MapNothing => "mmap"@,
            Operation::MapBuffer { index } => "mmap buffer "@ + decimal(index as nat),
            Operation::QueueBuffer { index } => "QBUF "@ + decimal(index as nat),
            Operation::DequeueBuffer => "DQBUF"@,
            Operation::StreamOn => "STREAMON"@,
            Operation::StreamOff => "STREAMOFF"@,
        }
    }

    /// What the operation is called in an error.
    pub fn describe(self) -> (text: String)
        ensures
            text@ == self.called(),
    {
        match self {
            Operation::GetFormat => "G_FMT".to_owned(),
            Operation::SetFormat => "S_FMT".to_owned(),
            Operation::SetFramerate => "S_PARM".to_owned(),
            Operation::SetControl { id, value } => {
                let mut text = "S_CTRL ".to_owned();
                push_hex(&mut text, id as u64);
                text.append(" = ");
                push_signed(&mut text, value);
                text
            },
            Operation::RequestBuffers { count } => numbered("REQBUFS ", count),
            Operation::QueryBuffer { index } => numbered("QUERYBUF ", index),
            Operation::MapNothing => "mmap".to_owned(),
            Operation::MapBuffer { index } => numbered("mmap buffer ", index),
            Operation::QueueBuffer { index } => numbered("QBUF ", index),
            Operation::DequeueBuffer => "DQBUF".to_owned(),
            Operation::StreamOn => "STREAMON".to_owned(),
            Operation::StreamOff => "STREAMOFF".to_owned(),
        }
    }

    /// Wrap a failure with the node and the operation that failed.
    pub fn err(self, path: &str, cause: &str) -> (text: String)
        ensures
            text@ == path@ + ": "@ + self.called() + ": "@ + cause@,
    {
        let mut text = path.to_owned();
        text.append(": ");
        text.append(self.describe().as_str());
        text.append(": ");
        text.append(cause);
        text
    }
}

/// What a node that grants a queue no buffers at all is reported as.
pub fn no_buffers(path: &str) -> (text: String)
    ensures
        text@ == path@ + ": "@ + Error::NoBuffers.text(),
{
    let mut text = path.to_owned();
    text.append(": ");
    text.append(Error::NoBuffers.message().as_str());
    text
}

/// What a failure of a codec on a node is reported as. A refused allocation is the
/// node's own failure and names it; the others are about the stream.
pub open spec fn reported(path: Seq<char>, err: &Error) -> Seq<char> {
    match err {
        Error::NoBuffers => path + ": "@ + err.text(),
        _ => err.text(),
    }
}

/// What a failure of a codec on a node is reported as.
pub fn report(path: &str, err: &Error) -> (text: String)
    ensures
        text@ == reported(path@, err),
{
    match err {
        Error::NoBuffers => no_buffers(path),
        _ => err.message(),
    }
}

fn numbered(what: &str, number: u32) -> (text: String)
    ensures
        text@ == what@ + decimal(number as nat),
{
    let mut text = what.to_owned();
    push_decimal(&mut text, number as u64);
    text
}

/// A queue does what is needed of it as soon as any one of the codes it offers is any one
/// of those wanted, wherever either stands in its list, and only then.
pub proof fn law_one_shared_code_is_enough(wanted: Seq<u32>, offered: Seq<u32>)
    ensures
        overlap(wanted, offered) <==> exists|i: int, j: int|
            0 <= i < wanted.len() && 0 <= j < offered.len() && #[trigger] wanted[i]
                == #[trigger] offered[j],
{
    if overlap(wanted, offered) {
        let code = choose|code: u32| wanted.contains(code) && #[trigger] offered.contains(code);
        let i = choose|i: int| 0 <= i < wanted.len() && wanted[i] == code;
        let j = choose|j: int| 0 <= j < offered.len() && offered[j] == code;
        assert(wanted[i] == offered[j]);
    }
    if exists|i: int, j: int|
        0 <= i < wanted.len() && 0 <= j < offered.len() && #[trigger] wanted[i]
            == #[trigger] offered[j] {
        let (i, j) = choose|i: int, j: int|
            0 <= i < wanted.len() && 0 <= j < offered.len() && #[trigger] wanted[i]
                == #[trigger] offered[j];
        assert(wanted.contains(wanted[i]) && offered.contains(wanted[i]));
    }
}

/// What goes into a node is checked against what the role takes in, and what comes out of
/// it against what the role gives back.
pub proof fn law_each_queue_has_its_own_codes(role: &Role)
    ensures
        role.wanted(Dir::Output) == role.input@,
        role.wanted(Dir::Capture) == role.output@,
{
}

/// A refused allocation is reported under the name of the node it is about, and anything
/// else in its own words alone.
pub proof fn law_a_report_names_the_node(path: Seq<char>, err: &Error)
    ensures
        err is NoBuffers ==> reported(path, err) == path + ": REQBUFS: out of memory"@,
        !(err is NoBuffers) ==> reported(path, err) == err.text(),
{
    reveal_strlit(": ");
    reveal_strlit("REQBUFS: out of memory");
    reveal_strlit(": REQBUFS: out of memory");
    assert(": "@ + "REQBUFS: out of memory"@ =~= ": REQBUFS: out of memory"@);
    if err is NoBuffers {
        assert(reported(path, err) =~= path + ": REQBUFS: out of memory"@);
    }
}

/// What an operation is called ends in what it was for: the control and the value it was to
/// get, how many buffers, or which.
pub proof fn law_an_operation_says_what_it_was_for(operation: Operation)
    ensures
        match operation {
            Operation::SetControl { id, value } => {
                &&& says(operation.called(), hex(id as nat))
                &&& says(operation.called(), signed(value as int))
            },
            Operation::RequestBuffers { count } => says(operation.called(), decimal(count as nat)),
            Operation::QueryBuffer { index }
            | Operation::MapBuffer { index }
            | Operation::QueueBuffer { index } => says(operation.called(), decimal(index as nat)),
            _ => true,
        },
{
    match operation {
        Operation::SetControl { id, value } => {
            let (a, b) = (hex(id as nat), signed(value as int));
            lemma_says("S_CTRL "@ + a + " = "@, b, Seq::empty());
            lemma_says("S_CTRL "@, a, " = "@ + b);
            assert("S_CTRL "@ + a + (" = "@ + b) =~= "S_CTRL "@ + a + " = "@ + b);
        },
        Operation::RequestBuffers { count } => {
            lemma_says("REQBUFS "@, decimal(count as nat), Seq::empty());
        },
        Operation::QueryBuffer { index } => {
            lemma_says("QUERYBUF "@, decimal(index as nat), Seq::empty());
        },
        Operation::MapBuffer { index } => {
            lemma_says("mmap buffer "@, decimal(index as nat), Seq::empty());
        },
        Operation::QueueBuffer { index } => {
            lemma_says("QBUF "@, decimal(index as nat), Seq::empty());
        },
        _ => {},
    }
}

} // verus!
