//! CAN bus settings, the bus configuration model and the frame type.

use vstd::prelude::*;

verus! {

/// A CAN bus bit rate, one of the common bit rates defined by CANopen.
#[derive(Clone, Copy, Debug, PartialEq, Eq, Structural)]
pub enum Bitrate {
    /// 1000 kbps
    Br1000kbps,
    /// 800 kbps
    Br800kbps,
    /// 500 kbps
    Br500kbps,
    /// 250 kbps
    Br250kbps,
    /// 125 kbps
    Br125kbps,
    /// 100 kbps
    Br100kbps,
    /// 83.333 kbps
    Br83kbps,
    /// 50 kbps
    Br50kbps,
    /// 20 kbps
    Br20kbps,
    /// 10 kbps
    Br10kbps,
}

impl Bitrate {
    /// Position of the bit rate in increasing order: 0 for 10 kbps, 9 for 1000 kbps.
    pub open spec fn rank(self) -> nat {
        match self {
            Bitrate::Br10kbps => 0,
            Bitrate::Br20kbps => 1,
            Bitrate::Br50kbps => 2,
            Bitrate::Br83kbps => 3,
            Bitrate::Br100kbps => 4,
            Bitrate::Br125kbps => 5,
            Bitrate::Br250kbps => 6,
            Bitrate::Br500kbps => 7,
            Bitrate::Br800kbps => 8,
            Bitrate::Br1000kbps => 9,
        }
    }

    /// The bit rate in bits per second.
    pub open spec fn bps_spec(self) -> u32 {
        match self {
            Bitrate::Br1000kbps => 1_000_000,
            Bitrate::Br800kbps => 800_000,
            Bitrate::Br500kbps => 500_000,
            Bitrate::Br250kbps => 250_000,
            Bitrate::Br125kbps => 125_000,
            Bitrate::Br100kbps => 100_000,
            Bitrate::Br83kbps => 83_333,
            Bitrate::Br50kbps => 50_000,
            Bitrate::Br20kbps => 20_000,
            Bitrate::Br10kbps => 10_000,
        }
    }

    /// Value of the bit timing register for a 16 MHz peripheral clock, a sample point at
    /// 87.5% and a synchronisation jump width of 1.
    pub open spec fn bit_timing_spec(self) -> u32 {
        match self {
            Bitrate::Br1000kbps => 0x001c0000,
            Bitrate::Br800kbps => 0x00070001,
            Bitrate::Br500kbps => 0x001c0001,
            Bitrate::Br250kbps => 0x001c0003,
            Bitrate::Br125kbps => 0x001c0007,
            Bitrate::Br100kbps => 0x001c0009,
            Bitrate::Br83kbps => 0x001c000b,
            Bitrate::Br50kbps => 0x001c0013,
            Bitrate::Br20kbps => 0x001c0031,
            Bitrate::Br10kbps => 0x001c0063,
        }
    }

    /// The bit rate of a given rank (see [`Bitrate::rank`]).
    pub open spec fn of_rank(r: nat) -> Bitrate {
        if r == 0 {
            Bitrate::Br10kbps
        } else if r == 1 {
            Bitrate::Br20kbps
        } else if r == 2 {
            Bitrate::Br50kbps
        } else if r == 3 {
            Bitrate::Br83kbps
        } else if r == 4 {
            Bitrate::Br100kbps
        } else if r == 5 {
            Bitrate::Br125kbps
        } else if r == 6 {
            Bitrate::Br250kbps
        } else if r == 7 {
            Bitrate::Br500kbps
        } else if r == 8 {
            Bitrate::Br800kbps
        } else {
            Bitrate::Br1000kbps
        }
    }

    /// The default bit rate, 125 kbps.
    pub fn default() -> (r: Self)
        ensures
            r == Bitrate::Br125kbps,
    {
        Bitrate::Br125kbps
    }

    /// The bit rate in bits per second.
    pub fn bps(&self) -> (r: u32)
        ensures
            r == self.bps_spec(),
    {
        match self {
            Bitrate::Br1000kbps => 1_000_000,
            Bitrate::Br800kbps => 800_000,
            Bitrate::Br500kbps => 500_000,
            Bitrate::Br250kbps => 250_000,
            Bitrate::Br125kbps => 125_000,
            Bitrate::Br100kbps => 100_000,
            Bitrate::Br83kbps => 83_333,
            Bitrate::Br50kbps => 50_000,
            Bitrate::Br20kbps => 20_000,
            Bitrate::Br10kbps => 10_000,
        }
    }

    /// The bit timing register value that configures the bus for this bit rate.
    pub fn as_bit_timing(&self) -> (r: u32)
        ensures
            r == self.bit_timing_spec(),
    {
        match self {
            Bitrate::Br1000kbps => 0x001c0000,
            Bitrate::Br800kbps => 0x00070001,
            Bitrate::Br500kbps => 0x001c0001,
            Bitrate::Br250kbps => 0x001c0003,
            Bitrate::Br125kbps => 0x001c0007,
            Bitrate::Br100kbps => 0x001c0009,
            Bitrate::Br83kbps => 0x001c000b,
            Bitrate::Br50kbps => 0x001c0013,
            Bitrate::Br20kbps => 0x001c0031,
            Bitrate::Br10kbps => 0x001c0063,
        }
    }

    /// Moves to the next higher bit rate; 1000 kbps stays where it is.
    pub fn increment(&mut self)
        ensures
            old(self).rank() < 9 ==> final(self).rank() == old(self).rank() + 1,
            old(self).rank() == 9 ==> *final(self) == *old(self),
            *final(self) == Bitrate::of_rank(if old(self).rank() < 9 { old(self).rank() + 1 } else { 9 }),
    {
        *self = match *self {
            Bitrate::Br1000kbps => Bitrate::Br1000kbps,
            Bitrate::Br800kbps => Bitrate::Br1000kbps,
            Bitrate::Br500kbps => Bitrate::Br800kbps,
            Bitrate::Br250kbps => Bitrate::Br500kbps,
            Bitrate::Br125kbps => Bitrate::Br250kbps,
            Bitrate::Br100kbps => Bitrate::Br125kbps,
            Bitrate::Br83kbps => Bitrate::Br100kbps,
            Bitrate::Br50kbps => Bitrate::Br83kbps,
            Bitrate::Br20kbps => Bitrate::Br50kbps,
            Bitrate::Br10kbps => Bitrate::Br20kbps,
        };
    }

    /// Moves to the next lower bit rate; 10 kbps stays where it is.
    pub fn decrement(&mut self)
        ensures
            old(self).rank() > 0 ==> final(self).rank() == old(self).rank() - 1,
            old(self).rank() == 0 ==> *final(self) == *old(self),
            *final(self) == Bitrate::of_rank(if old(self).rank() > 0 { (old(self).rank() - 1) as nat } else { 0 }),
    {
        *self = match *self {
            Bitrate::Br1000kbps => Bitrate::Br800kbps,
            Bitrate::Br800kbps => Bitrate::Br500kbps,
            Bitrate::Br500kbps => Bitrate::Br250kbps,
            Bitrate::Br250kbps => Bitrate::Br125kbps,
            Bitrate::Br125kbps => Bitrate::Br100kbps,
            Bitrate::Br100kbps => Bitrate::Br83kbps,
            Bitrate::Br83kbps => Bitrate::Br50kbps,
            Bitrate::Br50kbps => Bitrate::Br20kbps,
            Bitrate::Br20kbps => Bitrate::Br10kbps,
            Bitrate::Br10kbps => Bitrate::Br10kbps,
        };
    }
}

/// How frames are put on the bus.
#[derive(Clone, Copy, Debug, PartialEq, Eq, Structural)]
pub enum EmissionMode {
    /// Each frame is retransmitted until another node acknowledges it.
    AwaitACK,
    /// Each frame is sent once, acknowledged or not.
    IgnoreACK,
    /// Each frame is sent once and acknowledged by the device itself.
    Loopback,
}

impl EmissionMode {
    /// Position of the mode in the cycle AwaitACK, IgnoreACK, Loopback.
    pub open spec fn rank(self) -> nat {
        match self {
            EmissionMode::AwaitACK => 0,
            EmissionMode::IgnoreACK => 1,
            EmissionMode::Loopback => 2,
        }
    }

    /// The mode at a given position of the cycle.
    pub open spec fn of_rank(r: nat) -> EmissionMode {
        if r == 0 {
            EmissionMode::AwaitACK
        } else if r == 1 {
            EmissionMode::IgnoreACK
        } else {
            EmissionMode::Loopback
        }
    }

    /// The default mode, [`EmissionMode::AwaitACK`].
    pub fn default() -> (r: Self)
        ensures
            r == EmissionMode::AwaitACK,
    {
        EmissionMode::AwaitACK
    }

    /// Moves to the next mode, wrapping from the last to the first.
    pub fn increment(&mut self)
        ensures
            *final(self) == EmissionMode::of_rank((old(self).rank() + 1) % 3),
    {
        *self = match *self {
            EmissionMode::AwaitACK => EmissionMode::IgnoreACK,
            EmissionMode::IgnoreACK => EmissionMode::Loopback,
            EmissionMode::Loopback => EmissionMode::AwaitACK,
        };
    }

    /// Moves to the previous mode, wrapping from the first to the last.
    pub fn decrement(&mut self)
        ensures
            *final(self) == EmissionMode::of_rank((old(self).rank() + 2) % 3),
    {
        *self = match *self {
            EmissionMode::IgnoreACK => EmissionMode::AwaitACK,
            EmissionMode::Loopback => EmissionMode::IgnoreACK,
            EmissionMode::AwaitACK => EmissionMode::Loopback,
        };
    }

    /// Whether the controller retransmits a frame until it is acknowledged.
    pub fn automatic_retransmit(&self) -> (r: bool)
        ensures
            r == (*self == EmissionMode::AwaitACK),
    {
        match self {
            EmissionMode::AwaitACK => true,
            EmissionMode::IgnoreACK | EmissionMode::Loopback => false,
        }
    }

    /// Whether the controller loops its own frames back.
    pub fn loopback(&self) -> (r: bool)
        ensures
            r == (*self == EmissionMode::Loopback),
    {
        match self {
            EmissionMode::Loopback => true,
            EmissionMode::AwaitACK | EmissionMode::IgnoreACK => false,
        }
    }
}

/// Largest standard (11-bit) identifier plus one.
pub const STANDARD_ID_LIMIT: u16 = 0x800;

/// Largest extended (29-bit) identifier plus one.
pub const EXTENDED_ID_LIMIT: u32 = 0x2000_0000;

/// Largest number of payload bytes of a frame.
pub const MAX_PAYLOAD: usize = 8;

/// A CAN frame identifier.
#[derive(Clone, Copy, Debug, PartialEq, Eq, Structural)]
pub enum FrameId {
    /// An 11-bit identifier.
    Standard(u16),
    /// A 29-bit identifier.
    Extended(u32),
}

impl FrameId {
    /// The identifier fits the width that its kind declares.
    pub open spec fn valid(self) -> bool {
        match self {
            FrameId::Standard(n) => n < STANDARD_ID_LIMIT,
            FrameId::Extended(n) => n < EXTENDED_ID_LIMIT,
        }
    }

    /// Whether the identifier fits the width that its kind declares.
    pub fn is_valid(&self) -> (r: bool)
        ensures
            r == self.valid(),
    {
        match *self {
            FrameId::Standard(n) => n < STANDARD_ID_LIMIT,
            FrameId::Extended(n) => n < EXTENDED_ID_LIMIT,
        }
    }
}

/// What a [`Frame`] holds: its identifier and its payload.
pub struct FrameView {
    /// The identifier.
    pub id: FrameId,
    /// The payload bytes.
    pub data: Seq<u8>,
}

impl FrameView {
    /// A frame with a valid identifier and at most eight payload bytes.
    pub open spec fn wf(self) -> bool {
        self.id.valid() && self.data.len() <= MAX_PAYLOAD
    }
}

/// A CAN data frame: an identifier and zero to eight payload bytes.
#[derive(Debug, PartialEq, Eq)]
pub struct Frame {
    id: FrameId,
    data: Vec<u8>,
}

impl View for Frame {
    type V = FrameView;

    closed spec fn view(&self) -> FrameView {
        FrameView { id: self.id, data: self.data@ }
    }
}

impl Frame {
    /// Every frame has a valid identifier and at most eight payload bytes.
    #[verifier::type_invariant]
    closed spec fn inv(self) -> bool {
        self@.wf()
    }

    /// Builds a frame; `None` when the identifier does not fit its width or the payload is
    /// longer than eight bytes.
    pub fn new(id: FrameId, data: Vec<u8>) -> (r: Option<Frame>)
        ensures
            r is Some <==> (id.valid() && data@.len() <= MAX_PAYLOAD),
            r matches Some(f) ==> f@ == (FrameView { id, data: data@ }),
    {
        if id.is_valid() && data.len() <= MAX_PAYLOAD {
            Some(Frame { id, data })
        } else {
            None
        }
    }

    /// The identifier.
    pub fn id(&self) -> (r: FrameId)
        ensures
            r == self@.id,
    {
        self.id
    }

    /// The payload bytes.
    pub fn data(&self) -> (r: &[u8])
        ensures
            r@ == self@.data,
    {
        self.data.as_slice()
    }

    /// A frame with the same identifier and payload.
    pub fn duplicate(&self) -> (r: Frame)
        ensures
            r@ == self@,
    {
        proof {
            use_type_invariant(self);
        }
        let mut data: Vec<u8> = Vec::new();
        let mut i: usize = 0;
        while i < self.data.len()
            invariant
                i <= self.data@.len(),
                data@ == self.data@.subrange(0, i as int),
            decreases self.data@.len() - i,
        {
            data.push(self.data[i]);
            i = i + 1;
        }
        assert(data@ =~= self.data@);
        Frame { id: self.id, data }
    }
}

/// Configuration of the bus: disabled, or enabled for one direction with its settings.
#[derive(Clone, Copy, Debug, PartialEq, Eq, Structural)]
pub enum BusState {
    /// Neither transmitting nor receiving.
    Disabled,
    /// Enabled for transmission.
    Transmitting { bitrate: Bitrate, mode: EmissionMode },
    /// Enabled for reception; a silent bus does not acknowledge frames.
    Receiving { bitrate: Bitrate, silent: bool },
}

impl BusState {
    /// The state of the bus at boot: disabled.
    pub fn new() -> (r: BusState)
        ensures
            r == BusState::Disabled,
    {
        BusState::Disabled
    }

    /// Enables transmission with the given settings.
    pub fn enable_tx(&mut self, bitrate: Bitrate, mode: EmissionMode)
        ensures
            *final(self) == (BusState::Transmitting { bitrate, mode }),
    {
        *self = BusState::Transmitting { bitrate, mode };
    }

    /// Enables reception with the given settings.
    pub fn enable_rx(&mut self, bitrate: Bitrate, silent: bool)
        ensures
            *final(self) == (BusState::Receiving { bitrate, silent }),
    {
        *self = BusState::Receiving { bitrate, silent };
    }

    /// Disables both directions.
    pub fn disable(&mut self)
        ensures
            *final(self) == BusState::Disabled,
    {
        *self = BusState::Disabled;
    }
}

} // verus!
