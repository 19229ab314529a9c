//! Words of a trace of the instruction scheduler.
use std::collections::VecDeque;

use vstd::prelude::*;

verus! {

/// Number of words of a trace entry.
pub const TRACE_WORDS: usize = 7;

/// Flags of a pool entry: whether it is pending, whether it waits to be read,
/// whether it is valid, and the number of its state.
#[derive(Clone, Copy, Debug, PartialEq, Eq, Structural)]
pub struct IscPoolFlags(pub u32);

/// State of a pool entry.
#[derive(Clone, Copy, Debug, PartialEq, Eq, Structural)]
pub struct IscPoolState {
    pub flags: IscPoolFlags,
    pub wr_lock: u32,
    pub rd_lock: u32,
    pub issue_lock: u32,
    pub sync_id: u32,
}

/// Trace entry.
#[derive(Clone, Copy, Debug, PartialEq, Eq, Structural)]
pub struct IscTrace {
    pub state: IscPoolState,
    pub insn: u32,
    pub timestamp: u32,
}

/// Reason why a trace entry cannot be read.
#[derive(Clone, Copy, Debug, PartialEq, Eq, Structural)]
pub enum TraceParsingError {
    /// The stream ends before the entry.
    EmptyStream,
}

impl Default for IscPoolFlags {
    /// No flag.
    fn default() -> (r: IscPoolFlags)
        ensures
            r == IscPoolFlags(0),
    {
        IscPoolFlags(0)
    }
}

impl Default for IscPoolState {
    /// An empty entry.
    fn default() -> (r: IscPoolState)
        ensures
            r == (IscPoolState {
                flags: IscPoolFlags(0),
                wr_lock: 0,
                rd_lock: 0,
                issue_lock: 0,
                sync_id: 0,
            }),
    {
        IscPoolState {
            flags: IscPoolFlags::default(),
            wr_lock: 0,
            rd_lock: 0,
            issue_lock: 0,
            sync_id: 0,
        }
    }
}

impl TraceParsingError {
    /// Text of the error.
    pub fn message(&self) -> (r: &'static str)
        ensures
            r@ == "Incomplete stream"@,
    {
        match self {
            TraceParsingError::EmptyStream => "Incomplete stream",
        }
    }
}

impl IscPoolFlags {
    /// Flags encoded by a word.
    pub fn from_bits(bits: u32) -> (r: IscPoolFlags)
        ensures
            r.0 == bits,
    {
        IscPoolFlags(bits)
    }

    /// Word that encodes the flags.
    pub fn into_bits(self) -> (r: u32)
        ensures
            r == self.0,
    {
        self.0
    }

    /// Whether the entry is pending.
    pub fn pdg(&self) -> (r: bool)
        ensures
            r == (self.0 % 2 == 1),
    {
        self.0 % 2 == 1
    }

    /// Whether the entry waits to be read.
    pub fn rd_pdg(&self) -> (r: bool)
        ensures
            r == (self.0 / 2 % 2 == 1),
    {
        self.0 / 2 % 2 == 1
    }

    /// Whether the entry is valid.
    pub fn vld(&self) -> (r: bool)
        ensures
            r == (self.0 / 4 % 2 == 1),
    {
        self.0 / 4 % 2 == 1
    }

    /// Number of the state of the entry.
    pub fn state(&self) -> (r: u8)
        ensures
            r == self.0 / 8 % 8,
    {
        (self.0 / 8 % 8) as u8
    }
}

/// Words of a trace entry.
pub open spec fn words_of(trace: IscTrace) -> Seq<u32> {
    seq![
        trace.state.flags.0,
        trace.state.wr_lock,
        trace.state.rd_lock,
        trace.state.issue_lock,
        trace.state.sync_id,
        trace.insn,
        trace.timestamp,
    ]
}

fn peek(stream: &VecDeque<u32>, index: usize) -> (r: Result<u32, TraceParsingError>)
    ensures
        r == (if index < stream@.len() {
            Ok::<u32, TraceParsingError>(stream@[index as int])
        } else {
            Err(TraceParsingError::EmptyStream)
        }),
{
    if index < stream.len() {
        Ok(stream[index])
    } else {
        Err(TraceParsingError::EmptyStream)
    }
}

impl IscTrace {
    /// Entry at the front of a stream, which is left as it is.
    pub fn from_words(stream: &mut VecDeque<u32>) -> (r: Result<IscTrace, TraceParsingError>)
        ensures
            final(stream)@ == old(stream)@,
            match r {
                Ok(trace) => old(stream)@.len() >= TRACE_WORDS && words_of(trace)
                    == old(stream)@.take(TRACE_WORDS as int),
                Err(e) => old(stream)@.len() < TRACE_WORDS && e == TraceParsingError::EmptyStream,
            },
    {
        let flags = match peek(stream, 0) {
            Ok(word) => IscPoolFlags::from_bits(word),
            Err(e) => {
                return Err(e);
            },
        };
        let wr_lock: u32 = match peek(stream, 1) {
            Ok(word) => word,
            Err(e) => {
                return Err(e);
            },
        };
        let rd_lock: u32 = match peek(stream, 2) {
            Ok(word) => word,
            Err(e) => {
                return Err(e);
            },
        };
        let issue_lock: u32 = match peek(stream, 3) {
            Ok(word) => word,
            Err(e) => {
                return Err(e);
            },
        };
        let sync_id: u32 = match peek(stream, 4) {
            Ok(word) => word,
            Err(e) => {
                return Err(e);
            },
        };
        let insn: u32 = match peek(stream, 5) {
            Ok(word) => word,
            Err(e) => {
                return Err(e);
            },
        };
        let timestamp: u32 = match peek(stream, 6) {
            Ok(word) => word,
            Err(e) => {
                return Err(e);
            },
        };
        let state = IscPoolState { flags, wr_lock, rd_lock, issue_lock, sync_id };
        let trace = IscTrace { state, insn, timestamp };
        assert(words_of(trace) =~= stream@.take(7));
        Ok(trace)
    }

    /// Words of the entry.
    pub fn to_words(&self) -> (r: Vec<u32>)
        ensures
            r@ == words_of(*self),
    {
        let mut words: Vec<u32> = Vec::new();
        words.push(self.state.flags.into_bits());
        words.push(self.state.wr_lock);
        words.push(self.state.rd_lock);
        words.push(self.state.issue_lock);
        words.push(self.state.sync_id);
        words.push(self.insn);
        words.push(self.timestamp);
        assert(words@ =~= words_of(*self));
        words
    }
}

/// Two entries with the same words are equal: an entry is read back from its own
/// words, and from any stream that starts with them.
pub proof fn trace_round_trip(a: IscTrace, b: IscTrace, stream: Seq<u32>)
    requires
        stream.len() >= TRACE_WORDS,
        words_of(a) == stream.take(TRACE_WORDS as int),
        words_of(b) == stream.take(TRACE_WORDS as int),
    ensures
        a == b,
{
    assert(words_of(a)[0] == words_of(b)[0]);
    assert(words_of(a)[1] == words_of(b)[1]);
    assert(words_of(a)[2] == words_of(b)[2]);
    assert(words_of(a)[3] == words_of(b)[3]);
    assert(words_of(a)[4] == words_of(b)[4]);
    assert(words_of(a)[5] == words_of(b)[5]);
    assert(words_of(a)[6] == words_of(b)[6]);
}

/// Each word of an entry is one of its fields: the flags, the three locks, the synchronisation,
/// the instruction and the time, in this order.
pub proof fn trace_fields_are_in_order(trace: IscTrace, stream: Seq<u32>)
    requires
        stream.len() >= 7,
        words_of(trace) == stream.take(7),
    ensures
        trace == (IscTrace {
            state: IscPoolState {
                flags: IscPoolFlags(stream[0]),
                wr_lock: stream[1],
                rd_lock: stream[2],
                issue_lock: stream[3],
                sync_id: stream[4],
            },
            insn: stream[5],
            timestamp: stream[6],
        }),
{
    let words = words_of(trace);
    assert(words[0] == stream[0] && words[1] == stream[1] && words[2] == stream[2] && words[3]
        == stream[3] && words[4] == stream[4] && words[5] == stream[5] && words[6] == stream[6]);
}

} // verus!
