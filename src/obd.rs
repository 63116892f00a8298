//! Diagnostic request/response codec for the vehicle bus.

use vstd::prelude::*;

verus! {

/// Service mode of a diagnostic request.
#[derive(Clone, Copy, Debug, PartialEq, Eq, Structural)]
pub enum ObdMode {
    QueryNow,
    QueryFreezeFrame,
    QueryDTC,
    ClearDTC,
}

impl ObdMode {
    /// The byte that names this mode on the bus.
    pub open spec fn spec_code(self) -> u8 {
        match self {
            ObdMode::QueryNow => 0x01,
            ObdMode::QueryFreezeFrame => 0x02,
            ObdMode::QueryDTC => 0x03,
            ObdMode::ClearDTC => 0x04,
        }
    }

    pub fn code(self) -> (r: u8)
        ensures
            r == self.spec_code(),
    {
        match self {
            ObdMode::QueryNow => 0x01,
            ObdMode::QueryFreezeFrame => 0x02,
            ObdMode::QueryDTC => 0x03,
            ObdMode::ClearDTC => 0x04,
        }
    }
}

/// Parameter identifiers that the bridge knows how to ask for.
#[derive(Clone, Copy, Debug, PartialEq, Eq, Structural)]
pub enum PID {
    FirstCap,
    EngineSpeed,
    VehicleSpeed,
    ThrottlePosition,
    RunTime,
    SecondCap,
    FuelTankLevelInput,
    RelativeThrottlePosition,
    EngineFuelRate,
    Odometer,
    MassAirFlow,
    ShortTermFuelTrimBankOne,
    LongTermFuelTrimBankOne,
}

impl PID {
    /// The byte that names this parameter on the bus.
    pub open spec fn spec_code(self) -> u8 {
        match self {
            PID::FirstCap => 0x00,
            PID::EngineSpeed => 0x0C,
            PID::VehicleSpeed => 0x0D,
            PID::ThrottlePosition => 0x11,
            PID::RunTime => 0x1F,
            PID::SecondCap => 0x20,
            PID::FuelTankLevelInput => 0x2F,
            PID::RelativeThrottlePosition => 0x45,
            PID::EngineFuelRate => 0x5E,
            PID::Odometer => 0xA6,
            PID::MassAirFlow => 0x10,
            PID::ShortTermFuelTrimBankOne => 0x06,
            PID::LongTermFuelTrimBankOne => 0x07,
        }
    }

    pub fn code(self) -> (r: u8)
        ensures
            r == self.spec_code(),
    {
        match self {
            PID::FirstCap => 0x00,
            PID::EngineSpeed => 0x0C,
            PID::VehicleSpeed => 0x0D,
            PID::ThrottlePosition => 0x11,
            PID::RunTime => 0x1F,
            PID::SecondCap => 0x20,
            PID::FuelTankLevelInput => 0x2F,
            PID::RelativeThrottlePosition => 0x45,
            PID::EngineFuelRate => 0x5E,
            PID::Odometer => 0xA6,
            PID::MassAirFlow => 0x10,
            PID::ShortTermFuelTrimBankOne => 0x06,
            PID::LongTermFuelTrimBankOne => 0x07,
        }
    }

    /// The parameter named by a bus byte, if any.
    pub fn from_repr(v: u8) -> (r: Option<PID>)
        ensures
            match r {
                Some(p) => p.spec_code() == v,
                None => forall|p: PID| p.spec_code() != v,
            },
    {
        match v {
            0x00 => Some(PID::FirstCap),
            0x0C => Some(PID::EngineSpeed),
            0x0D => Some(PID::VehicleSpeed),
            0x11 => Some(PID::ThrottlePosition),
            0x1F => Some(PID::RunTime),
            0x20 => Some(PID::SecondCap),
            0x2F => Some(PID::FuelTankLevelInput),
            0x45 => Some(PID::RelativeThrottlePosition),
            0x5E => Some(PID::EngineFuelRate),
            0xA6 => Some(PID::Odometer),
            0x10 => Some(PID::MassAirFlow),
            0x06 => Some(PID::ShortTermFuelTrimBankOne),
            0x07 => Some(PID::LongTermFuelTrimBankOne),
            _ => None,
        }
    }
}

impl From<PID> for u8 {
    fn from(pid: PID) -> (r: u8)
        ensures
            r == pid.spec_code(),
    {
        pid.code()
    }
}

impl vstd::std_specs::convert::FromSpecImpl<PID> for u8 {
    open spec fn obeys_from_spec() -> bool {
        true
    }

    open spec fn from_spec(pid: PID) -> u8 {
        pid.spec_code()
    }
}

/// Error of a diagnostic exchange.
#[derive(Clone, Copy, Debug, PartialEq, Eq, Structural)]
pub enum ObdError {
    /// The bus driver failed, with this error code.
    Esp(i32),
    /// The response did not answer the query, or could not be decoded.
    MalformedResponse,
}

/// An exact reading: `numerator / denominator` in the unit of its parameter.
#[derive(Clone, Copy, Debug, PartialEq, Eq, Structural)]
pub struct Scaled {
    pub numerator: i64,
    pub denominator: u32,
}

/// A decoded response.
#[derive(Clone, Debug, PartialEq, Eq)]
pub enum ObdReading {
    /// A share of full scale, in percent.
    Percentage(Scaled),
    /// A signed correction, in percent.
    SignedPercentage(Scaled),
    /// A physical value in the parameter's own unit.
    Raw(Scaled),
    /// Raw trouble-code bytes.
    DTC(Vec<u8>),
    /// The payload of a mode that is not decoded.
    Unknown(Vec<u8>),
}

pub open spec fn scaled(numerator: int, denominator: u32) -> Scaled {
    Scaled { numerator: numerator as i64, denominator }
}

/// What the payload `d` of a current-data response for `pid` reads, where
/// `A`, `B`, `C`, `D` are its first bytes: `(256A + B) / 100` for mass air
/// flow, `(256A + B) / 20` for fuel rate, `(256A + B) / 4` for engine speed,
/// `256A + B` for run time, `A` for vehicle speed, `A / 2.55` percent for the
/// throttle and tank levels, `(2^24 A + 2^16 B + 2^8 C + D) / 10` for the
/// odometer and `A / 1.28 - 100` percent for the fuel trims. `None` where the
/// payload is too short or the parameter is not decoded.
pub open spec fn scaled_reading(pid: PID, d: Seq<u8>) -> Option<ObdReading> {
    let two = 256 * d[0] + d[1];
    match pid {
        PID::MassAirFlow => if d.len() < 2 { None } else { Some(ObdReading::Raw(scaled(two, 100))) },
        PID::EngineFuelRate => if d.len() < 2 { None } else { Some(ObdReading::Raw(scaled(two, 20))) },
        PID::EngineSpeed => if d.len() < 2 { None } else { Some(ObdReading::Raw(scaled(two, 4))) },
        PID::RunTime => if d.len() < 2 { None } else { Some(ObdReading::Raw(scaled(two, 1))) },
        PID::VehicleSpeed => if d.len() < 1 { None } else { Some(ObdReading::Raw(scaled(d[0] as int, 1))) },
        PID::ThrottlePosition | PID::FuelTankLevelInput | PID::RelativeThrottlePosition =>
            if d.len() < 1 { None } else { Some(ObdReading::Percentage(scaled(100 * d[0], 255))) },
        PID::Odometer => if d.len() < 4 {
            None
        } else {
            Some(ObdReading::Raw(scaled(16777216 * d[0] + 65536 * d[1] + 256 * d[2] + d[3], 10)))
        },
        PID::ShortTermFuelTrimBankOne | PID::LongTermFuelTrimBankOne =>
            if d.len() < 1 { None } else { Some(ObdReading::SignedPercentage(scaled(100 * d[0] - 12800, 128))) },
        _ => None,
    }
}

/// `r` is what the payload `d` of a response in `mode` decodes to, for the
/// parameter `format` that was asked for; `None` where it does not decode.
pub open spec fn is_decoding(mode: ObdMode, format: Option<PID>, d: Seq<u8>, r: Option<ObdReading>) -> bool {
    match mode {
        ObdMode::QueryDTC => r matches Some(ObdReading::DTC(v)) && v@ == d,
        ObdMode::QueryNow => match format {
            Some(pid) => r == scaled_reading(pid, d),
            None => r is None,
        },
        _ => r matches Some(ObdReading::Unknown(v)) && v@ == d,
    }
}

/// Decodes the payload `data` of a response in `mode` to a query for
/// `format`.
pub fn decode(mode: ObdMode, format: Option<PID>, data: &[u8]) -> (r: Result<ObdReading, ()>)
    ensures
        is_decoding(mode, format, data@, match r { Ok(x) => Some(x), Err(_) => None }),
{
    match mode {
        ObdMode::QueryDTC => Ok(ObdReading::DTC(vstd::slice::slice_to_vec(data))),
        ObdMode::QueryNow => {
            let pid = match format {
                Some(pid) => pid,
                None => return Err(()),
            };
            let n = data.len();
            match pid {
                PID::MassAirFlow | PID::EngineFuelRate | PID::EngineSpeed | PID::RunTime => {
                    if n < 2 {
                        return Err(());
                    }
                    let two = 256 * (data[0] as i64) + (data[1] as i64);
                    let denominator: u32 = match pid {
                        PID::MassAirFlow => 100,
                        PID::EngineFuelRate => 20,
                        PID::EngineSpeed => 4,
                        _ => 1,
                    };
                    Ok(ObdReading::Raw(Scaled { numerator: two, denominator }))
                },
                PID::VehicleSpeed => {
                    if n < 1 {
                        return Err(());
                    }
                    Ok(ObdReading::Raw(Scaled { numerator: data[0] as i64, denominator: 1 }))
                },
                PID::ThrottlePosition | PID::FuelTankLevelInput | PID::RelativeThrottlePosition => {
                    if n < 1 {
                        return Err(());
                    }
                    Ok(ObdReading::Percentage(Scaled { numerator: 100 * (data[0] as i64), denominator: 255 }))
                },
                PID::Odometer => {
                    if n < 4 {
                        return Err(());
                    }
                    let total = 16777216 * (data[0] as i64) + 65536 * (data[1] as i64) + 256
                        * (data[2] as i64) + (data[3] as i64);
                    Ok(ObdReading::Raw(Scaled { numerator: total, denominator: 10 }))
                },
                PID::ShortTermFuelTrimBankOne | PID::LongTermFuelTrimBankOne => {
                    if n < 1 {
                        return Err(());
                    }
                    Ok(
                        ObdReading::SignedPercentage(
                            Scaled { numerator: 100 * (data[0] as i64) - 12800, denominator: 128 },
                        ),
                    )
                },
                _ => Err(()),
            }
        },
        _ => Ok(ObdReading::Unknown(vstd::slice::slice_to_vec(data))),
    }
}

/// The parameters that a request in `mode` carries: none for a trouble-code
/// query.
pub open spec fn request_pids(mode: ObdMode, pids: Seq<PID>) -> Seq<PID> {
    if mode == ObdMode::QueryDTC {
        Seq::empty()
    } else {
        pids
    }
}

/// The eight-byte request frame: the count of bytes that follow, the mode,
/// the parameters, then zero padding.
pub open spec fn request_frame(mode: ObdMode, pids: Seq<PID>) -> Seq<u8> {
    seq![(pids.len() + 1) as u8, mode.spec_code()] + pids.map_values(|p: PID| p.spec_code())
        + Seq::new((6 - pids.len()) as nat, |i: int| 0u8)
}

/// A request about to be sent.
pub struct ObdRequest<'a> {
    pub mode: ObdMode,
    pub data: &'a [PID],
}

impl<'a> ObdRequest<'a> {
    /// Assembles the request frame. A trouble-code query drops its
    /// parameters; a request whose byte count exceeds seven is refused.
    pub fn assemble(&mut self) -> (r: Result<[u8; 8], ()>)
        ensures
            final(self).mode == old(self).mode,
            final(self).data@ == request_pids(old(self).mode, old(self).data@),
            match r {
                Ok(msg) => request_pids(old(self).mode, old(self).data@).len() <= 6
                    && msg@ == request_frame(old(self).mode, request_pids(old(self).mode, old(self).data@)),
                Err(_) => request_pids(old(self).mode, old(self).data@).len() > 6,
            },
    {
        if self.mode == ObdMode::QueryDTC {
            self.data = vstd::slice::slice_subrange(self.data, 0, 0);
        }
        let n = self.data.len();
        if n > 6 {
            return Err(());
        }
        let mut msg: [u8; 8] = [0u8; 8];
        msg[0] = (n + 1) as u8;
        msg[1] = self.mode.code();
        let mut k: usize = 0;
        while k < n
            invariant
                n == self.data@.len(),
                n <= 6,
                k <= n,
                msg@.len() == 8,
                msg@[0] == (n + 1) as u8,
                msg@[1] == self.mode.spec_code(),
                forall|i: int| 0 <= i < k ==> msg@[2 + i] == (#[trigger] self.data@[i]).spec_code(),
                forall|i: int| 2 + k <= i < 8 ==> msg@[i] == 0,
            decreases n - k,
        {
            msg[2 + k] = self.data[k].code();
            k += 1;
        }
        assert(msg@ =~= request_frame(self.mode, self.data@));
        Ok(msg)
    }
}

/// The payload of a response frame `f` to a query in `mode` for `pids`:
/// the frame must echo the mode (plus 0x40) and the first parameter, and its
/// leading byte counts the bytes that follow, header included.
pub open spec fn response_payload(mode: ObdMode, pids: Seq<PID>, f: Seq<u8>) -> Option<Seq<u8>> {
    let header = 1 + pids.len() as int;
    if f.len() < 2 || f[1] != 0x40 + mode.spec_code() {
        None
    } else if pids.len() > 0 && (f.len() < 3 || f[2] != pids[0].spec_code()) {
        None
    } else if f[0] <= header || f[0] + 1 > f.len() {
        None
    } else {
        Some(f.subrange(header + 1, f[0] as int + 1))
    }
}

pub open spec fn first_pid(pids: Seq<PID>) -> Option<PID> {
    if pids.len() > 0 {
        Some(pids[0])
    } else {
        None
    }
}

/// A diagnostic query: a mode and the parameters asked for in it.
pub struct ObdQuery {
    pid: Vec<PID>,
    mode: ObdMode,
}

impl ObdQuery {
    /// A query asks for at most one parameter.
    pub closed spec fn wf(&self) -> bool {
        self.pid@.len() <= 1
    }

    pub closed spec fn spec_mode(&self) -> ObdMode {
        self.mode
    }

    pub closed spec fn spec_pids(&self) -> Seq<PID> {
        self.pid@
    }

    /// The request frame of this query.
    pub fn frame(&self) -> (r: [u8; 8])
        requires
            self.wf(),
        ensures
            r@ == request_frame(self.spec_mode(), request_pids(self.spec_mode(), self.spec_pids())),
    {
        let mut request = ObdRequest { mode: self.mode, data: self.pid.as_slice() };
        match request.assemble() {
            Ok(msg) => msg,
            Err(()) => {
                proof {
                    assert(false);
                }
                [0u8; 8]
            },
        }
    }

    /// Reads the response frame `frame` to this query.
    pub fn parse_response(&self, frame: &[u8]) -> (r: Result<ObdReading, ObdError>)
        ensures
            match response_payload(self.spec_mode(), self.spec_pids(), frame@) {
                None => r == Err::<ObdReading, ObdError>(ObdError::MalformedResponse),
                Some(p) => match r {
                    Ok(x) => is_decoding(self.spec_mode(), first_pid(self.spec_pids()), p, Some(x)),
                    Err(e) => e == ObdError::MalformedResponse
                        && is_decoding(self.spec_mode(), first_pid(self.spec_pids()), p, None),
                },
            },
    {
        let n = frame.len();
        if n < 2 || frame[1] != 0x40 + self.mode.code() {
            return Err(ObdError::MalformedResponse);
        }
        if self.pid.len() > 0 && (n < 3 || frame[2] != self.pid[0].code()) {
            return Err(ObdError::MalformedResponse);
        }
        let count = frame[0] as usize;
        if count <= self.pid.len() || count - self.pid.len() <= 1 || count + 1 > n {
            return Err(ObdError::MalformedResponse);
        }
        let start = self.pid.len() + 2;
        let payload = vstd::slice::slice_subrange(frame, start, count + 1);
        let format = if self.pid.len() > 0 {
            Some(self.pid[0])
        } else {
            None
        };
        match decode(self.mode, format, payload) {
            Ok(x) => Ok(x),
            Err(()) => Err(ObdError::MalformedResponse),
        }
    }

    /// A query in `mode` for the one parameter `pid`, or for none.
    pub fn new(mode: ObdMode, pid: Option<PID>) -> (r: Self)
        ensures
            r.wf(),
            r.spec_mode() == mode,
            r.spec_pids() == match pid {
                Some(p) => seq![p],
                None => Seq::<PID>::empty(),
            },
    {
        let pids = match pid {
            Some(p) => vec![p],
            None => Vec::new(),
        };
        proof {
            if pid is Some {
                assert(pids@ =~= seq![pid->0]);
            }
        }
        Self { mode, pid: pids }
    }
}

} // verus!
