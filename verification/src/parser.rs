//! The incremental frame parser: sync detection, payload accumulation,
//! checksum verification, and payload decoding.

use vstd::prelude::*;

use crate::protocol::checksum_complement;
use crate::protocol::decode_from;
use crate::protocol::decode_payload;
use crate::protocol::lemma_sum_bytes_push;
use crate::protocol::read_be_i16;
use crate::protocol::read_be_u16;
use crate::protocol::read_be_u24;
use crate::protocol::record_at;
use crate::protocol::sum_bytes;
use crate::protocol::truncated_at;
use crate::protocol::width_at;
use crate::protocol::MAX_PAYLOAD_LEN;
use crate::protocol::SYNC;
use crate::records::PacketType;

verus! {

broadcast use vstd::seq_lib::group_seq_lib_default;

/// The synchronization phase of the parser.
pub enum State {
    NoSync,
    FirstSync,
    SecondSync,
    ValidPacket,
}

/// The abstract state of a [`Parser`].
#[verifier::ext_equal]
pub ghost struct ParserView {
    pub state: State,
    pub plength: u8,
    pub payload: Seq<u8>,
    pub checksum: u8,
}

impl ParserView {
    /// The state of a freshly constructed parser, and the target of every
    /// reset.
    pub open spec fn init() -> ParserView {
        ParserView { state: State::NoSync, plength: 0, payload: Seq::empty(), checksum: 0 }
    }

    /// Well-formedness: the checksum accumulator holds the wrapping sum of
    /// the accumulated payload; the payload together with the bytes still
    /// owed never outgrows the declared length bound; and outside payload
    /// accumulation nothing is accumulated.
    pub open spec fn wf(self) -> bool {
        &&& self.checksum == sum_bytes(self.payload)
        &&& self.payload.len() + self.plength <= MAX_PAYLOAD_LEN
        &&& !(self.state is ValidPacket) ==> self.payload.len() == 0 && self.plength == 0
    }

    /// One transition of the state machine on one fed byte.
    pub open spec fn step(self, data: u8) -> ParserView {
        match self.state {
            State::NoSync => if data == SYNC {
                ParserView { state: State::FirstSync, ..self }
            } else {
                self
            },
            State::FirstSync => if data == SYNC {
                ParserView { state: State::SecondSync, ..self }
            } else {
                ParserView { state: State::NoSync, ..self }
            },
            State::SecondSync => if data > SYNC {
                ParserView { state: State::NoSync, ..self }
            } else if data < SYNC {
                ParserView { state: State::ValidPacket, plength: data, ..self }
            } else {
                self
            },
            State::ValidPacket => if self.plength == 0 {
                ParserView::init()
            } else {
                ParserView {
                    state: State::ValidPacket,
                    plength: (self.plength - 1) as u8,
                    payload: self.payload.push(data),
                    checksum: ((self.checksum + data) % 256) as u8,
                }
            },
        }
    }

    /// What a fed byte yields: `Some` exactly on the byte that completes a
    /// frame whose checksum matches.
    pub open spec fn output(self, data: u8) -> Option<Seq<PacketType>> {
        if self.state is ValidPacket && self.plength == 0 && data == checksum_complement(
            self.checksum,
        ) {
            Some(decode_payload(self.payload))
        } else {
            None
        }
    }
}

/// Every transition preserves well-formedness.
pub proof fn lemma_step_preserves_wf(v: ParserView, data: u8)
    requires
        v.wf(),
    ensures
        v.step(data).wf(),
{
    match v.state {
        State::ValidPacket => {
            if v.plength != 0 {
                lemma_sum_bytes_push(v.payload, data);
            }
        },
        _ => {},
    }
}

/// The mathematical view of an optional record list.
pub open spec fn records_view(out: Option<Vec<PacketType>>) -> Option<Seq<PacketType>> {
    match out {
        Some(records) => Some(records@),
        None => None,
    }
}

/// The incremental parser. Feed bytes one at a time with [`Parser::parse`];
/// its abstract state and transition relation are given by [`ParserView`].
pub struct Parser {
    state: State,
    plength: u8,
    payload: Vec<u8>,
    checksum: u8,
}

impl View for Parser {
    type V = ParserView;

    closed spec fn view(&self) -> ParserView {
        ParserView {
            state: self.state,
            plength: self.plength,
            payload: self.payload@,
            checksum: self.checksum,
        }
    }
}

impl Parser {
    /// A parser awaiting the first sync byte, with nothing accumulated.
    pub fn new() -> (p: Parser)
        ensures
            p@ == ParserView::init(),
            p@.wf(),
    {
        let p = Parser { state: State::NoSync, plength: 0, payload: Vec::new(), checksum: 0 };
        proof {
            assert(p@ =~= ParserView::init());
        }
        p
    }

    /// Feed one byte of the stream.
    ///
    /// Returns `Some(records)` only on the byte that completes a fully
    /// verified frame, and `None` otherwise; the parser moves exactly as
    /// [`ParserView::step`] describes, so after every terminal outcome it is
    /// back in the state of a freshly constructed one.
    pub fn parse(&mut self, data: u8) -> (out: Option<Vec<PacketType>>)
        requires
            old(self)@.wf(),
        ensures
            final(self)@.wf(),
            final(self)@ == old(self)@.step(data),
            records_view(out) == old(self)@.output(data),
    {
        proof {
            lemma_step_preserves_wf(old(self)@, data);
        }
        match self.state {
            State::NoSync => {
                self.handle_nosync(data);
                None
            },
            State::FirstSync => {
                self.handle_firstsync(data);
                None
            },
            State::SecondSync => {
                self.handle_secondsync(data);
                None
            },
            State::ValidPacket => self.handle_validpacket(data),
        }
    }

    /// Return to the initial synchronization state, discarding any partial
    /// frame.
    fn reset(&mut self)
        ensures
            final(self)@ == ParserView::init(),
    {
        *self = Parser::new();
    }

    /// Await the first sync byte; everything else is ignored.
    fn handle_nosync(&mut self, data: u8)
        requires
            old(self)@.state is NoSync,
        ensures
            final(self)@ == old(self)@.step(data),
    {
        if data == SYNC {
            self.state = State::FirstSync;
        }
    }

    /// Await the second sync byte; anything else restarts synchronization.
    fn handle_firstsync(&mut self, data: u8)
        requires
            old(self)@.state is FirstSync,
        ensures
            final(self)@ == old(self)@.step(data),
    {
        if data == SYNC {
            self.state = State::SecondSync;
        } else {
            self.state = State::NoSync;
        }
    }

    /// Read the payload length byte.
    ///
    /// A length above [`SYNC`] violates the protocol and restarts
    /// synchronization. A length equal to [`SYNC`] is not a valid terminal
    /// value either way, and the parser keeps waiting for a differing length
    /// byte, so stray extra sync bytes before the length are absorbed here.
    fn handle_secondsync(&mut self, data: u8)
        requires
            old(self)@.state is SecondSync,
        ensures
            final(self)@ == old(self)@.step(data),
    {
        if data > SYNC {
            self.state = State::NoSync;
        } else if data < SYNC {
            self.state = State::ValidPacket;
            self.plength = data;
        }
    }

    /// Accumulate payload bytes; once all are in, treat the fed byte as the
    /// checksum and finish the frame one way or the other.
    fn handle_validpacket(&mut self, data: u8) -> (out: Option<Vec<PacketType>>)
        requires
            old(self)@.wf(),
            old(self)@.state is ValidPacket,
        ensures
            final(self)@ == old(self)@.step(data),
            records_view(out) == old(self)@.output(data),
    {
        if self.plength == 0 {
            let expected = 255 - self.checksum;
            let out = if data != expected {
                None
            } else {
                Some(self.handle_parser())
            };
            self.reset();
            out
        } else {
            self.payload.push(data);
            self.checksum = self.checksum.wrapping_add(data);
            self.plength = self.plength - 1;
            proof {
                lemma_sum_bytes_push(old(self)@.payload, data);
            }
            None
        }
    }

    /// Decode a complete, checksum-verified payload into records.
    ///
    /// Reads only the payload buffer; the rest of the parser state plays no
    /// part.
    fn handle_parser(&self) -> (records: Vec<PacketType>)
        requires
            self@.payload.len() <= usize::MAX - 26,
        ensures
            records@ == decode_payload(self@.payload),
    {
        let ghost p = self@.payload;
        let len = self.payload.len();
        let mut n: usize = 0;
        let mut records: Vec<PacketType> = Vec::new();
        let mut stop = false;
        while n < len && !stop
            invariant
                n <= len,
                len == self.payload.len(),
                len <= usize::MAX - 26,
                p == self@.payload,
                stop ==> records@ == decode_payload(p),
                !stop ==> records@ + decode_from(p, n as int) == decode_payload(p),
            decreases len - n + (if stop { 0int } else { 1int }),
        {
            let ghost n0 = n as int;
            let ghost prefix = records@;
            let tag = self.payload[n];
            let rec: PacketType;
            // A zero advance marks a truncated record: decoding stops there.
            let mut adv: usize = 0;
            if tag == 0xd0 {
                if n + 1 >= len {
                    rec = PacketType::PacketTruncated(tag);
                } else if self.payload[n + 1] == 0x02 {
                    if n + 3 >= len {
                        rec = PacketType::PacketTruncated(tag);
                    } else {
                        rec = PacketType::HeadsetConnected(
                            read_be_u16(self.payload[n + 2], self.payload[n + 3]),
                        );
                        adv = 4;
                    }
                } else {
                    rec = PacketType::HeadsetConnectedUndefined;
                    adv = 4;
                }
            } else if tag == 0xd1 {
                if n + 1 >= len {
                    rec = PacketType::PacketTruncated(tag);
                } else if self.payload[n + 1] == 0x02 {
                    if n + 3 >= len {
                        rec = PacketType::PacketTruncated(tag);
                    } else {
                        rec = PacketType::HeadsetNotFound(
                            read_be_u16(self.payload[n + 2], self.payload[n + 3]),
                        );
                        adv = 4;
                    }
                } else if self.payload[n + 1] == 0x00 {
                    rec = PacketType::NoHeadsetFound;
                    adv = 2;
                } else {
                    rec = PacketType::NotFoundUndefined;
                    adv = 2;
                }
            } else if tag == 0xd2 {
                if n + 1 >= len {
                    rec = PacketType::PacketTruncated(tag);
                } else if self.payload[n + 1] == 0x02 {
                    if n + 3 >= len {
                        rec = PacketType::PacketTruncated(tag);
                    } else {
                        rec = PacketType::HeadsetDisconnected(
                            read_be_u16(self.payload[n + 2], self.payload[n + 3]),
                        );
                        adv = 4;
                    }
                } else {
                    rec = PacketType::HeadsetDisconnectedUndefined;
                    adv = 4;
                }
            } else if tag == 0xd3 {
                if n + 1 >= len {
                    rec = PacketType::PacketTruncated(tag);
                } else {
                    if self.payload[n + 1] == 0x00 {
                        rec = PacketType::RequestDenied;
                    } else {
                        rec = PacketType::HeadsetDisconnectedUndefined;
                    }
                    adv = 2;
                }
            } else if tag == 0xd4 {
                if n + 1 >= len {
                    rec = PacketType::PacketTruncated(tag);
                } else if self.payload[n + 1] == 0x01 {
                    if n + 2 >= len {
                        rec = PacketType::PacketTruncated(tag);
                    } else {
                        if self.payload[n + 2] == 0x00 {
                            rec = PacketType::Standby;
                        } else if self.payload[n + 2] == 0x01 {
                            rec = PacketType::FindHeadset;
                        } else {
                            rec = PacketType::StandbyPacketUndefined;
                        }
                        adv = 3;
                    }
                } else {
                    rec = PacketType::StandbyLengthUndefined;
                    adv = 3;
                }
            } else if tag == 0x02 {
                if n + 1 >= len {
                    rec = PacketType::PacketTruncated(tag);
                } else {
                    rec = PacketType::PoorSignal(self.payload[n + 1]);
                    adv = 2;
                }
            } else if tag == 0x04 {
                if n + 1 >= len {
                    rec = PacketType::PacketTruncated(tag);
                } else {
                    rec = PacketType::Attention(self.payload[n + 1]);
                    adv = 2;
                }
            } else if tag == 0x05 {
                if n + 1 >= len {
                    rec = PacketType::PacketTruncated(tag);
                } else {
                    rec = PacketType::Meditation(self.payload[n + 1]);
                    adv = 2;
                }
            } else if tag == 0x16 {
                if n + 1 >= len {
                    rec = PacketType::PacketTruncated(tag);
                } else {
                    rec = PacketType::Blink(self.payload[n + 1]);
                    adv = 2;
                }
            } else if tag == 0x80 {
                if n + 3 >= len {
                    rec = PacketType::PacketTruncated(tag);
                } else {
                    rec = PacketType::RawValue(
                        read_be_i16(self.payload[n + 2], self.payload[n + 3]),
                    );
                    adv = 4;
                }
            } else if tag == 0x83 {
                if n + 25 >= len {
                    rec = PacketType::PacketTruncated(tag);
                } else {
                    rec = PacketType::AsicEeg(
                        crate::records::AsicEeg {
                            delta: read_be_u24(
                                self.payload[n + 2],
                                self.payload[n + 3],
                                self.payload[n + 4],
                            ),
                            theta: read_be_u24(
                                self.payload[n + 5],
                                self.payload[n + 6],
                                self.payload[n + 7],
                            ),
                            low_alpha: read_be_u24(
                                self.payload[n + 8],
                                self.payload[n + 9],
                                self.payload[n + 10],
                            ),
                            high_alpha: read_be_u24(
                                self.payload[n + 11],
                                self.payload[n + 12],
                                self.payload[n + 13],
                            ),
                            low_beta: read_be_u24(
                                self.payload[n + 14],
                                self.payload[n + 15],
                                self.payload[n + 16],
                            ),
                            high_beta: read_be_u24(
                                self.payload[n + 17],
                                self.payload[n + 18],
                                self.payload[n + 19],
                            ),
                            low_gamma: read_be_u24(
                                self.payload[n + 20],
                                self.payload[n + 21],
                                self.payload[n + 22],
                            ),
                            mid_gamma: read_be_u24(
                                self.payload[n + 23],
                                self.payload[n + 24],
                                self.payload[n + 25],
                            ),
                        },
                    );
                    adv = 26;
                }
            } else {
                rec = PacketType::PacketUndefined(tag);
                adv = 1;
            }
            records.push(rec);
            if adv == 0 {
                stop = true;
                proof {
                    assert(truncated_at(p, n0));
                    assert(rec == record_at(p, n0));
                    assert(decode_from(p, n0) == seq![record_at(p, n0)] + decode_from(
                        p,
                        n0 + width_at(p, n0),
                    ));
                    assert(records@ =~= prefix + decode_from(p, n0));
                }
            } else {
                let next = if len - n < adv {
                    len
                } else {
                    n + adv
                };
                proof {
                    assert(!truncated_at(p, n0));
                    assert(rec == record_at(p, n0));
                    assert(width_at(p, n0) == next - n0);
                    assert(decode_from(p, n0) == seq![record_at(p, n0)] + decode_from(
                        p,
                        next as int,
                    ));
                    assert(records@ + decode_from(p, next as int) =~= prefix + decode_from(p, n0));
                }
                n = next;
            }
        }
        records
    }
}

} // verus!
