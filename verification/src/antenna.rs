//! Antenna port configuration (`0x91`) encoding and Get Antenna Ports
//! (`0x61`) response decoding.

use vstd::prelude::*;

use crate::bytes::{be16, push_u16_be, read_be16, u16_be};
use crate::codes::AntennaPortsOption;
use crate::error::ProtocolError;

verus! {

/// TX/RX antenna pair.
#[derive(Debug, Clone, Copy, PartialEq, Eq, Structural)]
pub struct AntennaPair {
    /// TX logical antenna number.
    pub tx: u8,
    /// RX logical antenna number.
    pub rx: u8,
}

/// Per-antenna power values.
#[derive(Debug, Clone, Copy, PartialEq, Eq, Structural)]
pub struct AntennaPower {
    /// TX logical antenna number.
    pub tx: u8,
    /// Read power value in units of `0.01 dBm`.
    ///
    /// The protocol documentation notes that firmware currently applies this
    /// with an effective precision of about `1 dBm`.
    pub read_power: u16,
    /// Write power value in units of `0.01 dBm`.
    ///
    /// The protocol documentation notes that firmware currently applies this
    /// with an effective precision of about `1 dBm`.
    pub write_power: u16,
}

/// Per-antenna power and settling time values.
#[derive(Debug, Clone, Copy, PartialEq, Eq, Structural)]
pub struct AntennaPowerSettling {
    /// TX logical antenna number.
    pub tx: u8,
    /// Read power value in units of `0.01 dBm`.
    pub read_power: u16,
    /// Write power value in units of `0.01 dBm`.
    pub write_power: u16,
    /// Settling time in microseconds.
    pub settling_time_us: u16,
}

/// Abstract content of an antenna configuration or antenna response.
pub enum AntennaPortsView {
    /// A single TX/RX pair for tag access operations.
    AccessPair(AntennaPair),
    /// Ordered inventory antenna pairs.
    InventoryPairs(Seq<AntennaPair>),
    /// Per-antenna read/write power.
    Power(Seq<AntennaPower>),
    /// Per-antenna read/write power and settling time.
    PowerAndSettling(Seq<AntennaPowerSettling>),
    /// Antenna connection state bytes.
    ConnectionStates(Seq<u8>),
}

/// Typed payload variants for command `0x91` (Set Antenna Ports).
#[derive(Debug, Clone, PartialEq, Eq)]
pub enum AntennaPortsConfiguration {
    /// Set the single TX/RX pair used for tag access operations.
    AccessPair(AntennaPair),
    /// Set the ordered TX/RX pairs used during inventory operations.
    InventoryPairs(Vec<AntennaPair>),
    /// Set read/write power per logical TX antenna (`0.01 dBm` units).
    Power(Vec<AntennaPower>),
    /// Set read/write power and settling time per logical TX antenna.
    PowerAndSettling(Vec<AntennaPowerSettling>),
}

impl View for AntennaPortsConfiguration {
    type V = AntennaPortsView;

    open spec fn view(&self) -> AntennaPortsView {
        match self {
            AntennaPortsConfiguration::AccessPair(p) => AntennaPortsView::AccessPair(*p),
            AntennaPortsConfiguration::InventoryPairs(v) => AntennaPortsView::InventoryPairs(v@),
            AntennaPortsConfiguration::Power(v) => AntennaPortsView::Power(v@),
            AntennaPortsConfiguration::PowerAndSettling(v) => AntennaPortsView::PowerAndSettling(v@),
        }
    }
}

/// Parsed response data for Get Antenna Ports (0x61).
#[derive(Debug, Clone, PartialEq, Eq)]
pub enum AntennaPortsResponse {
    /// Option 0x00, single TX/RX pair for tag access operations.
    AccessPair(AntennaPair),
    /// Option 0x02, inventory antenna pairs.
    InventoryPairs(Vec<AntennaPair>),
    /// Option 0x03, antenna power entries (`0.01 dBm` units).
    Power(Vec<AntennaPower>),
    /// Option 0x04, antenna power + settling entries.
    PowerAndSettling(Vec<AntennaPowerSettling>),
    /// Option 0x05, antenna connection states in order.
    ConnectionStates(Vec<u8>),
}

impl View for AntennaPortsResponse {
    type V = AntennaPortsView;

    open spec fn view(&self) -> AntennaPortsView {
        match self {
            AntennaPortsResponse::AccessPair(p) => AntennaPortsView::AccessPair(*p),
            AntennaPortsResponse::InventoryPairs(v) => AntennaPortsView::InventoryPairs(v@),
            AntennaPortsResponse::Power(v) => AntennaPortsView::Power(v@),
            AntennaPortsResponse::PowerAndSettling(v) => AntennaPortsView::PowerAndSettling(v@),
            AntennaPortsResponse::ConnectionStates(v) => AntennaPortsView::ConnectionStates(v@),
        }
    }
}

/// Wire bytes of one pair: `TX | RX`.
pub open spec fn pair_bytes(p: AntennaPair) -> Seq<u8> {
    seq![p.tx, p.rx]
}

/// Wire bytes of one power entry: `TX | Read(2) | Write(2)`.
pub open spec fn power_bytes(p: AntennaPower) -> Seq<u8> {
    seq![p.tx] + u16_be(p.read_power) + u16_be(p.write_power)
}

/// Wire bytes of one power-and-settling entry:
/// `TX | Read(2) | Write(2) | Settling(2)`.
pub open spec fn power_settling_bytes(p: AntennaPowerSettling) -> Seq<u8> {
    seq![p.tx] + u16_be(p.read_power) + u16_be(p.write_power) + u16_be(p.settling_time_us)
}

/// Wire bytes of a list of pairs, in order.
pub open spec fn pairs_bytes(s: Seq<AntennaPair>) -> Seq<u8>
    decreases s.len(),
{
    if s.len() == 0 {
        Seq::empty()
    } else {
        pairs_bytes(s.drop_last()) + pair_bytes(s.last())
    }
}

/// Wire bytes of a list of power entries, in order.
pub open spec fn powers_bytes(s: Seq<AntennaPower>) -> Seq<u8>
    decreases s.len(),
{
    if s.len() == 0 {
        Seq::empty()
    } else {
        powers_bytes(s.drop_last()) + power_bytes(s.last())
    }
}

/// Wire bytes of a list of power-and-settling entries, in order.
pub open spec fn power_settlings_bytes(s: Seq<AntennaPowerSettling>) -> Seq<u8>
    decreases s.len(),
{
    if s.len() == 0 {
        Seq::empty()
    } else {
        power_settlings_bytes(s.drop_last()) + power_settling_bytes(s.last())
    }
}

/// The data field of Set Antenna Ports for a configuration, or the error
/// for an empty list.
pub open spec fn antenna_config_data(c: AntennaPortsView) -> Result<Seq<u8>, ProtocolError> {
    match c {
        AntennaPortsView::AccessPair(p) => Ok(seq![0x00u8, p.tx, p.rx]),
        AntennaPortsView::InventoryPairs(s) => if s.len() == 0 {
            Err(ProtocolError::InvalidArgument("inventory antenna pairs cannot be empty"))
        } else {
            Ok(seq![0x02u8] + pairs_bytes(s))
        },
        AntennaPortsView::Power(s) => if s.len() == 0 {
            Err(ProtocolError::InvalidArgument("antenna power entries cannot be empty"))
        } else {
            Ok(seq![0x03u8] + powers_bytes(s))
        },
        AntennaPortsView::PowerAndSettling(s) => if s.len() == 0 {
            Err(ProtocolError::InvalidArgument("antenna power and settling entries cannot be empty"))
        } else {
            Ok(seq![0x04u8] + power_settlings_bytes(s))
        },
        AntennaPortsView::ConnectionStates(_) => Err(
            ProtocolError::InvalidArgument("connection states cannot be set"),
        ),
    }
}

/// The `i`-th pair of a pair list field.
pub open spec fn pair_at(e: Seq<u8>, i: int) -> AntennaPair {
    AntennaPair { tx: e[2 * i], rx: e[2 * i + 1] }
}

/// The `i`-th power entry of a power list field.
pub open spec fn power_at(e: Seq<u8>, i: int) -> AntennaPower {
    AntennaPower {
        tx: e[5 * i],
        read_power: be16(e[5 * i + 1], e[5 * i + 2]),
        write_power: be16(e[5 * i + 3], e[5 * i + 4]),
    }
}

/// The `i`-th power-and-settling entry of a list field.
pub open spec fn power_settling_at(e: Seq<u8>, i: int) -> AntennaPowerSettling {
    AntennaPowerSettling {
        tx: e[7 * i],
        read_power: be16(e[7 * i + 1], e[7 * i + 2]),
        write_power: be16(e[7 * i + 3], e[7 * i + 4]),
        settling_time_us: be16(e[7 * i + 5], e[7 * i + 6]),
    }
}

/// What Get Antenna Ports data decodes to for the requested option.
pub open spec fn antenna_response(option: AntennaPortsOption, d: Seq<u8>) -> Result<
    AntennaPortsView,
    ProtocolError,
> {
    match option {
        AntennaPortsOption::AccessPair => if d.len() != 2 {
            Err(ProtocolError::InvalidResponse("get antenna option 0x00 response length must be 2"))
        } else {
            Ok(AntennaPortsView::AccessPair(AntennaPair { tx: d[0], rx: d[1] }))
        },
        AntennaPortsOption::InventoryPairs => if d.len() < 1 || d[0] != 0x02 {
            Err(ProtocolError::InvalidResponse("get antenna option 0x02 response must start with option byte 0x02"))
        } else if d.len() == 1 || (d.len() - 1) % 2 != 0 {
            Err(ProtocolError::InvalidResponse("get antenna option 0x02 pairs must be non-empty and even-sized"))
        } else {
            let e = d.subrange(1, d.len() as int);
            Ok(AntennaPortsView::InventoryPairs(Seq::new(e.len() / 2, |i: int| pair_at(e, i))))
        },
        AntennaPortsOption::Power => if d.len() < 1 || d[0] != 0x03 {
            Err(ProtocolError::InvalidResponse("get antenna option 0x03 response must start with option byte 0x03"))
        } else if d.len() == 1 || (d.len() - 1) % 5 != 0 {
            Err(ProtocolError::InvalidResponse("get antenna option 0x03 entries must be non-empty and 5-byte aligned"))
        } else {
            let e = d.subrange(1, d.len() as int);
            Ok(AntennaPortsView::Power(Seq::new(e.len() / 5, |i: int| power_at(e, i))))
        },
        AntennaPortsOption::PowerAndSettling => if d.len() < 1 || d[0] != 0x04 {
            Err(ProtocolError::InvalidResponse("get antenna option 0x04 response must start with option byte 0x04"))
        } else if d.len() == 1 || (d.len() - 1) % 7 != 0 {
            Err(ProtocolError::InvalidResponse("get antenna option 0x04 entries must be non-empty and 7-byte aligned"))
        } else {
            let e = d.subrange(1, d.len() as int);
            Ok(AntennaPortsView::PowerAndSettling(Seq::new(e.len() / 7, |i: int| power_settling_at(e, i))))
        },
        AntennaPortsOption::ConnectionStates => if d.len() == 0 || d[0] != 0x05 {
            Err(ProtocolError::InvalidResponse("get antenna option 0x05 response must start with option byte 0x05"))
        } else {
            Ok(AntennaPortsView::ConnectionStates(d.subrange(1, d.len() as int)))
        },
    }
}

impl AntennaPortsConfiguration {
    /// Encode the Set Antenna Ports data field: the option byte followed by
    /// the option-specific entries.
    pub(crate) fn encode(&self) -> (r: Result<Vec<u8>, ProtocolError>)
        ensures
            match r {
                Ok(v) => antenna_config_data(self@) == Ok::<Seq<u8>, ProtocolError>(v@),
                Err(e) => antenna_config_data(self@) == Err::<Seq<u8>, ProtocolError>(e),
            },
    {
        match self {
            AntennaPortsConfiguration::AccessPair(pair) => {
                let mut data: Vec<u8> = Vec::new();
                data.push(AntennaPortsOption::AccessPair.as_u8());
                data.push(pair.tx);
                data.push(pair.rx);
                assert(data@ =~= seq![0x00u8, pair.tx, pair.rx]);
                Ok(data)
            },
            AntennaPortsConfiguration::InventoryPairs(pairs) => {
                if pairs.len() == 0 {
                    return Err(
                        ProtocolError::InvalidArgument("inventory antenna pairs cannot be empty"),
                    );
                }
                let mut data: Vec<u8> = Vec::new();
                data.push(AntennaPortsOption::InventoryPairs.as_u8());
                let mut i: usize = 0;
                while i < pairs.len()
                    invariant
                        0 <= i <= pairs@.len(),
                        data@ == seq![0x02u8] + pairs_bytes(pairs@.subrange(0, i as int)),
                    decreases pairs@.len() - i,
                {
                    let pair = pairs[i];
                    data.push(pair.tx);
                    data.push(pair.rx);
                    assert(pairs@.subrange(0, i + 1).drop_last() == pairs@.subrange(0, i as int));
                    i = i + 1;
                    assert(data@ =~= seq![0x02u8] + pairs_bytes(pairs@.subrange(0, i as int)));
                }
                assert(pairs@.subrange(0, pairs@.len() as int) == pairs@);
                Ok(data)
            },
            AntennaPortsConfiguration::Power(entries) => {
                if entries.len() == 0 {
                    return Err(ProtocolError::InvalidArgument("antenna power entries cannot be empty"));
                }
                let mut data: Vec<u8> = Vec::new();
                data.push(AntennaPortsOption::Power.as_u8());
                let mut i: usize = 0;
                while i < entries.len()
                    invariant
                        0 <= i <= entries@.len(),
                        data@ == seq![0x03u8] + powers_bytes(entries@.subrange(0, i as int)),
                    decreases entries@.len() - i,
                {
                    let entry = entries[i];
                    data.push(entry.tx);
                    push_u16_be(&mut data, entry.read_power);
                    push_u16_be(&mut data, entry.write_power);
                    assert(entries@.subrange(0, i + 1).drop_last() == entries@.subrange(0, i as int));
                    i = i + 1;
                    assert(data@ =~= seq![0x03u8] + powers_bytes(entries@.subrange(0, i as int)));
                }
                assert(entries@.subrange(0, entries@.len() as int) == entries@);
                Ok(data)
            },
            AntennaPortsConfiguration::PowerAndSettling(entries) => {
                if entries.len() == 0 {
                    return Err(
                        ProtocolError::InvalidArgument(
                            "antenna power and settling entries cannot be empty",
                        ),
                    );
                }
                let mut data: Vec<u8> = Vec::new();
                data.push(AntennaPortsOption::PowerAndSettling.as_u8());
                let mut i: usize = 0;
                while i < entries.len()
                    invariant
                        0 <= i <= entries@.len(),
                        data@ == seq![0x04u8] + power_settlings_bytes(
                            entries@.subrange(0, i as int),
                        ),
                    decreases entries@.len() - i,
                {
                    let entry = entries[i];
                    data.push(entry.tx);
                    push_u16_be(&mut data, entry.read_power);
                    push_u16_be(&mut data, entry.write_power);
                    push_u16_be(&mut data, entry.settling_time_us);
                    assert(entries@.subrange(0, i + 1).drop_last() == entries@.subrange(0, i as int));
                    i = i + 1;
                    assert(data@ =~= seq![0x04u8] + power_settlings_bytes(
                        entries@.subrange(0, i as int),
                    ));
                }
                assert(entries@.subrange(0, entries@.len() as int) == entries@);
                Ok(data)
            },
        }
    }
}

/// Parse command `0x61` (Get Antenna Ports) response payload.
///
/// `request_option` must be the same option sent in the host command so the
/// parser can decode the option-specific response layout.
pub fn parse_antenna_ports_response(request_option: AntennaPortsOption, data: &[u8]) -> (r: Result<
    AntennaPortsResponse,
    ProtocolError,
>)
    ensures
        match r {
            Ok(v) => antenna_response(request_option, data@) == Ok::<
                AntennaPortsView,
                ProtocolError,
            >(v@),
            Err(e) => antenna_response(request_option, data@) == Err::<
                AntennaPortsView,
                ProtocolError,
            >(e),
        },
{
    match request_option {
        AntennaPortsOption::AccessPair => {
            if data.len() != 2 {
                return Err(
                    ProtocolError::InvalidResponse(
                        "get antenna option 0x00 response length must be 2",
                    ),
                );
            }
            Ok(AntennaPortsResponse::AccessPair(AntennaPair { tx: data[0], rx: data[1] }))
        },
        AntennaPortsOption::InventoryPairs => {
            if data.len() < 1 || data[0] != 0x02 {
                return Err(
                    ProtocolError::InvalidResponse(
                        "get antenna option 0x02 response must start with option byte 0x02",
                    ),
                );
            }
            let pairs = &data[1..data.len()];
            if pairs.len() == 0 || (pairs.len() % 2 != 0) {
                return Err(
                    ProtocolError::InvalidResponse(
                        "get antenna option 0x02 pairs must be non-empty and even-sized",
                    ),
                );
            }
            let n = pairs.len() / 2;
            let ghost e = data@.subrange(1, data@.len() as int);
            let mut out: Vec<AntennaPair> = Vec::with_capacity(n);
            let mut i: usize = 0;
            while i < n
                invariant
                    0 <= i <= n,
                    n == e.len() / 2,
                    e.len() % 2 == 0,
                    pairs@ == e,
                    pairs@.len() <= usize::MAX,
                    out@.len() == i,
                    forall|j: int| 0 <= j < i ==> out@[j] == pair_at(e, j),
                decreases n - i,
            {
                assert(2 * i + 1 < pairs@.len());
                out.push(AntennaPair { tx: pairs[2 * i], rx: pairs[2 * i + 1] });
                i = i + 1;
            }
            assert(out@ =~= Seq::new(e.len() / 2, |j: int| pair_at(e, j)));
            Ok(AntennaPortsResponse::InventoryPairs(out))
        },
        AntennaPortsOption::Power => {
            if data.len() < 1 || data[0] != 0x03 {
                return Err(
                    ProtocolError::InvalidResponse(
                        "get antenna option 0x03 response must start with option byte 0x03",
                    ),
                );
            }
            let entries = &data[1..data.len()];
            if entries.len() == 0 || (entries.len() % 5 != 0) {
                return Err(
                    ProtocolError::InvalidResponse(
                        "get antenna option 0x03 entries must be non-empty and 5-byte aligned",
                    ),
                );
            }
            let n = entries.len() / 5;
            let ghost e = data@.subrange(1, data@.len() as int);
            let mut out: Vec<AntennaPower> = Vec::with_capacity(n);
            let mut i: usize = 0;
            while i < n
                invariant
                    0 <= i <= n,
                    n == e.len() / 5,
                    e.len() % 5 == 0,
                    entries@ == e,
                    entries@.len() <= usize::MAX,
                    out@.len() == i,
                    forall|j: int| 0 <= j < i ==> out@[j] == power_at(e, j),
                decreases n - i,
            {
                assert(5 * i + 4 < entries@.len());
                let k = 5 * i;
                out.push(
                    AntennaPower {
                        tx: entries[k],
                        read_power: read_be16(entries[k + 1], entries[k + 2]),
                        write_power: read_be16(entries[k + 3], entries[k + 4]),
                    },
                );
                i = i + 1;
            }
            assert(out@ =~= Seq::new(e.len() / 5, |j: int| power_at(e, j)));
            Ok(AntennaPortsResponse::Power(out))
        },
        AntennaPortsOption::PowerAndSettling => {
            if data.len() < 1 || data[0] != 0x04 {
                return Err(
                    ProtocolError::InvalidResponse(
                        "get antenna option 0x04 response must start with option byte 0x04",
                    ),
                );
            }
            let entries = &data[1..data.len()];
            if entries.len() == 0 || (entries.len() % 7 != 0) {
                return Err(
                    ProtocolError::InvalidResponse(
                        "get antenna option 0x04 entries must be non-empty and 7-byte aligned",
                    ),
                );
            }
            let n = entries.len() / 7;
            let ghost e = data@.subrange(1, data@.len() as int);
            let mut out: Vec<AntennaPowerSettling> = Vec::with_capacity(n);
            let mut i: usize = 0;
            while i < n
                invariant
                    0 <= i <= n,
                    n == e.len() / 7,
                    e.len() % 7 == 0,
                    entries@ == e,
                    entries@.len() <= usize::MAX,
                    out@.len() == i,
                    forall|j: int| 0 <= j < i ==> out@[j] == power_settling_at(e, j),
                decreases n - i,
            {
                assert(7 * i + 6 < entries@.len());
                let k = 7 * i;
                out.push(
                    AntennaPowerSettling {
                        tx: entries[k],
                        read_power: read_be16(entries[k + 1], entries[k + 2]),
                        write_power: read_be16(entries[k + 3], entries[k + 4]),
                        settling_time_us: read_be16(entries[k + 5], entries[k + 6]),
                    },
                );
                i = i + 1;
            }
            assert(out@ =~= Seq::new(e.len() / 7, |j: int| power_settling_at(e, j)));
            Ok(AntennaPortsResponse::PowerAndSettling(out))
        },
        AntennaPortsOption::ConnectionStates => {
            if data.len() == 0 || data[0] != 0x05 {
                return Err(
                    ProtocolError::InvalidResponse(
                        "get antenna option 0x05 response must start with option byte 0x05",
                    ),
                );
            }
            Ok(AntennaPortsResponse::ConnectionStates(vstd::slice::slice_to_vec(&data[1..data.len()])))
        },
    }
}

/// Every entry of a pair list can be read back from its wire bytes.
proof fn lemma_pairs_bytes_read_back(s: Seq<AntennaPair>)
    ensures
        pairs_bytes(s).len() == 2 * s.len(),
        forall|i: int| 0 <= i < s.len() ==> #[trigger] pair_at(pairs_bytes(s), i) == s[i],
    decreases s.len(),
{
    if s.len() > 0 {
        lemma_pairs_bytes_read_back(s.drop_last());
        let b = pairs_bytes(s);
        let p = pairs_bytes(s.drop_last());
        assert forall|i: int| 0 <= i < s.len() implies #[trigger] pair_at(b, i) == s[i] by {
            if i < s.len() - 1 {
                assert(pair_at(p, i) == s.drop_last()[i]);
                assert(b[2 * i] == p[2 * i] && b[2 * i + 1] == p[2 * i + 1]);
            }
        }
    }
}

/// Every entry of a power list can be read back from its wire bytes.
proof fn lemma_powers_bytes_read_back(s: Seq<AntennaPower>)
    ensures
        powers_bytes(s).len() == 5 * s.len(),
        forall|i: int| 0 <= i < s.len() ==> #[trigger] power_at(powers_bytes(s), i) == s[i],
    decreases s.len(),
{
    if s.len() > 0 {
        lemma_powers_bytes_read_back(s.drop_last());
        let b = powers_bytes(s);
        let p = powers_bytes(s.drop_last());
        let x = s.last();
        assert(b == p + power_bytes(x));
        crate::bytes::lemma_u16_be_round_trip(x.read_power);
        crate::bytes::lemma_u16_be_round_trip(x.write_power);
        assert forall|i: int| 0 <= i < s.len() implies #[trigger] power_at(b, i) == s[i] by {
            if i < s.len() - 1 {
                assert(power_at(p, i) == s.drop_last()[i]);
            }
        }
    }
}

/// Every entry of a power-and-settling list can be read back from its wire
/// bytes.
proof fn lemma_power_settlings_bytes_read_back(s: Seq<AntennaPowerSettling>)
    ensures
        power_settlings_bytes(s).len() == 7 * s.len(),
        forall|i: int|
            0 <= i < s.len() ==> #[trigger] power_settling_at(power_settlings_bytes(s), i) == s[i],
    decreases s.len(),
{
    if s.len() > 0 {
        lemma_power_settlings_bytes_read_back(s.drop_last());
        let b = power_settlings_bytes(s);
        let p = power_settlings_bytes(s.drop_last());
        let x = s.last();
        assert(b == p + power_settling_bytes(x));
        crate::bytes::lemma_u16_be_round_trip(x.read_power);
        crate::bytes::lemma_u16_be_round_trip(x.write_power);
        crate::bytes::lemma_u16_be_round_trip(x.settling_time_us);
        assert forall|i: int| 0 <= i < s.len() implies #[trigger] power_settling_at(b, i) == s[i] by {
            if i < s.len() - 1 {
                assert(power_settling_at(p, i) == s.drop_last()[i]);
            }
        }
    }
}

/// What Set Antenna Ports writes is what Get Antenna Ports reads back: the
/// data field of a configuration, decoded as the response of the matching
/// option, gives the same configuration. (The access-pair response carries
/// no option byte, so it is the data field without its first byte.)
pub proof fn lemma_antenna_config_read_back(c: AntennaPortsView)
    requires
        antenna_config_data(c) is Ok,
    ensures
        match c {
            AntennaPortsView::AccessPair(_) => antenna_response(
                AntennaPortsOption::AccessPair,
                antenna_config_data(c)->Ok_0.drop_first(),
            ) == Ok::<AntennaPortsView, ProtocolError>(c),
            AntennaPortsView::InventoryPairs(_) => antenna_response(
                AntennaPortsOption::InventoryPairs,
                antenna_config_data(c)->Ok_0,
            ) == Ok::<AntennaPortsView, ProtocolError>(c),
            AntennaPortsView::Power(_) => antenna_response(
                AntennaPortsOption::Power,
                antenna_config_data(c)->Ok_0,
            ) == Ok::<AntennaPortsView, ProtocolError>(c),
            AntennaPortsView::PowerAndSettling(_) => antenna_response(
                AntennaPortsOption::PowerAndSettling,
                antenna_config_data(c)->Ok_0,
            ) == Ok::<AntennaPortsView, ProtocolError>(c),
            AntennaPortsView::ConnectionStates(_) => true,
        },
{
    match c {
        AntennaPortsView::AccessPair(p) => {
            let d = antenna_config_data(c)->Ok_0;
            assert(d.drop_first() =~= seq![p.tx, p.rx]);
        },
        AntennaPortsView::InventoryPairs(s) => {
            lemma_pairs_bytes_read_back(s);
            let d = antenna_config_data(c)->Ok_0;
            let e = d.subrange(1, d.len() as int);
            assert(e =~= pairs_bytes(s));
            assert(Seq::new(e.len() / 2, |i: int| pair_at(e, i)) =~= s);
        },
        AntennaPortsView::Power(s) => {
            lemma_powers_bytes_read_back(s);
            let d = antenna_config_data(c)->Ok_0;
            let e = d.subrange(1, d.len() as int);
            assert(e =~= powers_bytes(s));
            assert(Seq::new(e.len() / 5, |i: int| power_at(e, i)) =~= s);
        },
        AntennaPortsView::PowerAndSettling(s) => {
            lemma_power_settlings_bytes_read_back(s);
            let d = antenna_config_data(c)->Ok_0;
            let e = d.subrange(1, d.len() as int);
            assert(e =~= power_settlings_bytes(s));
            assert(Seq::new(e.len() / 7, |i: int| power_settling_at(e, i)) =~= s);
        },
        AntennaPortsView::ConnectionStates(_) => {},
    }
}

/// One antenna power entry on the wire: the TX port (byte 0), the read
/// power (bytes 1 and 2) and the write power (bytes 3 and 4), high byte
/// first; with settling, the settling time follows in bytes 5 and 6.
pub proof fn lemma_power_entry_layout(p: AntennaPower, q: AntennaPowerSettling)
    ensures
        power_bytes(p).len() == 5,
        power_bytes(p)[0] == p.tx,
        crate::bytes::be_int16(power_bytes(p), 1) == p.read_power as int,
        crate::bytes::be_int16(power_bytes(p), 3) == p.write_power as int,
        power_settling_bytes(q).len() == 7,
        power_settling_bytes(q)[0] == q.tx,
        crate::bytes::be_int16(power_settling_bytes(q), 1) == q.read_power as int,
        crate::bytes::be_int16(power_settling_bytes(q), 3) == q.write_power as int,
        crate::bytes::be_int16(power_settling_bytes(q), 5) == q.settling_time_us as int,
{
    crate::bytes::lemma_u16_be_at(seq![p.tx], p.read_power, u16_be(p.write_power));
    crate::bytes::lemma_u16_be_at(seq![p.tx] + u16_be(p.read_power), p.write_power, Seq::empty());
    assert(power_bytes(p) =~= seq![p.tx] + u16_be(p.read_power) + u16_be(p.write_power)
        + Seq::<u8>::empty());
    let a = seq![q.tx];
    crate::bytes::lemma_u16_be_at(a, q.read_power, u16_be(q.write_power) + u16_be(q.settling_time_us));
    assert(power_settling_bytes(q) =~= a + u16_be(q.read_power) + (u16_be(q.write_power) + u16_be(
        q.settling_time_us,
    )));
    crate::bytes::lemma_u16_be_at(a + u16_be(q.read_power), q.write_power, u16_be(q.settling_time_us));
    assert(power_settling_bytes(q) =~= a + u16_be(q.read_power) + u16_be(q.write_power) + u16_be(
        q.settling_time_us,
    ));
    crate::bytes::lemma_u16_be_at(
        a + u16_be(q.read_power) + u16_be(q.write_power),
        q.settling_time_us,
        Seq::empty(),
    );
    assert(power_settling_bytes(q) =~= a + u16_be(q.read_power) + u16_be(q.write_power) + u16_be(
        q.settling_time_us,
    ) + Seq::<u8>::empty());
}

/// Entry lists go on the wire in order, one fixed-size entry after the
/// other: pair `i` at bytes `2i`, power entry `i` at bytes `5i`, power and
/// settling entry `i` at bytes `7i`.
pub proof fn lemma_entry_lists_in_order(
    pairs: Seq<AntennaPair>,
    powers: Seq<AntennaPower>,
    settlings: Seq<AntennaPowerSettling>,
)
    ensures
        pairs_bytes(pairs).len() == 2 * pairs.len(),
        forall|i: int|
            0 <= i < pairs.len() ==> #[trigger] pairs_bytes(pairs).subrange(2 * i, 2 * i + 2)
                == pair_bytes(pairs[i]),
        powers_bytes(powers).len() == 5 * powers.len(),
        forall|i: int|
            0 <= i < powers.len() ==> #[trigger] powers_bytes(powers).subrange(5 * i, 5 * i + 5)
                == power_bytes(powers[i]),
        power_settlings_bytes(settlings).len() == 7 * settlings.len(),
        forall|i: int|
            0 <= i < settlings.len() ==> #[trigger] power_settlings_bytes(settlings).subrange(
                7 * i,
                7 * i + 7,
            ) == power_settling_bytes(settlings[i]),
    decreases pairs.len() + powers.len() + settlings.len(),
{
    if pairs.len() > 0 {
        lemma_entry_lists_in_order(pairs.drop_last(), Seq::empty(), Seq::empty());
        let b = pairs_bytes(pairs);
        let b0 = pairs_bytes(pairs.drop_last());
        assert forall|i: int| 0 <= i < pairs.len() implies #[trigger] b.subrange(2 * i, 2 * i + 2)
            == pair_bytes(pairs[i]) by {
            if i < pairs.len() - 1 {
                assert(b.subrange(2 * i, 2 * i + 2) =~= b0.subrange(2 * i, 2 * i + 2));
            } else {
                assert(b.subrange(2 * i, 2 * i + 2) =~= pair_bytes(pairs.last()));
            }
        }
    }
    if powers.len() > 0 {
        lemma_entry_lists_in_order(Seq::empty(), powers.drop_last(), Seq::empty());
        let b = powers_bytes(powers);
        let b0 = powers_bytes(powers.drop_last());
        assert forall|i: int| 0 <= i < powers.len() implies #[trigger] b.subrange(5 * i, 5 * i + 5)
            == power_bytes(powers[i]) by {
            if i < powers.len() - 1 {
                assert(b.subrange(5 * i, 5 * i + 5) =~= b0.subrange(5 * i, 5 * i + 5));
            } else {
                assert(b.subrange(5 * i, 5 * i + 5) =~= power_bytes(powers.last()));
            }
        }
    }
    if settlings.len() > 0 {
        lemma_entry_lists_in_order(Seq::empty(), Seq::empty(), settlings.drop_last());
        let b = power_settlings_bytes(settlings);
        let b0 = power_settlings_bytes(settlings.drop_last());
        assert forall|i: int| 0 <= i < settlings.len() implies #[trigger] b.subrange(
            7 * i,
            7 * i + 7,
        ) == power_settling_bytes(settlings[i]) by {
            if i < settlings.len() - 1 {
                assert(b.subrange(7 * i, 7 * i + 7) =~= b0.subrange(7 * i, 7 * i + 7));
            } else {
                assert(b.subrange(7 * i, 7 * i + 7) =~= power_settling_bytes(settlings.last()));
            }
        }
    }
}

} // verus!
