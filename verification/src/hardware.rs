//! Hardware configurations: the pins and ports a board revision wires the
//! ROM socket to, and their validation.

use vstd::prelude::*;

use crate::sdrr_types::{McuFamily, RomType};
use crate::text::{
    chars_of, first_views, lex_sorted, pair_views, replace_char, replace_char_in, sort_by_first,
    ascii_lowercase, ascii_uppercase, is_ascii_chars, spec_to_lowercase, spec_to_uppercase, str_eq, str_to_lowercase, str_to_uppercase,
};

verus! {

/// A GPIO port of the MCU.
#[derive(Debug, Clone, Copy, PartialEq, Eq, Hash, Structural)]
pub enum Port {
    /// No port: the function is not wired.
    PortNone,
    /// The RP2350's single bank.
    Zero,
    A,
    B,
    C,
    D,
}

impl Port {
    /// The port named by an already upper-cased string.
    pub open spec fn spec_from_uppercase(s: Seq<char>) -> Option<Port> {
        if s == "0"@ {
            Some(Port::Zero)
        } else if s == "A"@ {
            Some(Port::A)
        } else if s == "B"@ {
            Some(Port::B)
        } else if s == "C"@ {
            Some(Port::C)
        } else if s == "D"@ {
            Some(Port::D)
        } else if s == "NONE"@ {
            Some(Port::PortNone)
        } else {
            None
        }
    }

    /// Recognises an upper-cased port name.
    pub fn from_uppercase(s: &str) -> (r: Option<Self>)
        ensures
            r == Self::spec_from_uppercase(s@),
    {
        if str_eq(s, "0") {
            Some(Port::Zero)
        } else if str_eq(s, "A") {
            Some(Port::A)
        } else if str_eq(s, "B") {
            Some(Port::B)
        } else if str_eq(s, "C") {
            Some(Port::C)
        } else if str_eq(s, "D") {
            Some(Port::D)
        } else if str_eq(s, "NONE") {
            Some(Port::PortNone)
        } else {
            None
        }
    }

    /// Recognises a port name (`0`, `A`..`D` or `None`), ignoring case.
    pub fn from_str(s: &str) -> (r: Option<Self>)
        ensures
            r == Self::spec_from_uppercase(spec_to_uppercase(s@)),
            is_ascii_chars(s@) ==> r == Self::spec_from_uppercase(ascii_uppercase(s@)),
    {
        let upper = str_to_uppercase(s);
        Self::from_uppercase(upper.as_str())
    }

    pub open spec fn spec_display(self) -> Seq<char> {
        match self {
            Port::PortNone => "PORT_NONE"@,
            Port::Zero => "PORT_0"@,
            Port::A => "PORT_A"@,
            Port::B => "PORT_B"@,
            Port::C => "PORT_C"@,
            Port::D => "PORT_D"@,
        }
    }

    /// The firmware's C name of the port.
    pub fn to_string(&self) -> (r: String)
        ensures
            r@ == self.spec_display(),
    {
        match self {
            Port::PortNone => String::from_str("PORT_NONE"),
            Port::Zero => String::from_str("PORT_0"),
            Port::A => String::from_str("PORT_A"),
            Port::B => String::from_str("PORT_B"),
            Port::C => String::from_str("PORT_C"),
            Port::D => String::from_str("PORT_D"),
        }
    }
}

/// Which port carries each group of signals.
#[derive(Debug, Clone, Copy, PartialEq, Eq, Structural)]
pub struct McuPorts {
    pub data_port: Port,
    pub addr_port: Port,
    pub cs_port: Port,
    pub sel_port: Port,
    pub status_port: Port,
}

/// The ROM socket's pin count.
#[derive(Debug, Clone, Copy, PartialEq, Eq, Structural)]
pub struct RomPins {
    pub quantity: u8,
}

/// The ROM socket.
#[derive(Debug, Clone, Copy, PartialEq, Eq, Structural)]
pub struct Rom {
    pub pins: RomPins,
}

/// A pin number for each ROM type that has one.
#[derive(Debug, Clone, Copy, PartialEq, Eq, Structural)]
pub struct RomPinMap {
    pub rom2316: Option<u8>,
    pub rom2332: Option<u8>,
    pub rom2364: Option<u8>,
    pub rom23128: Option<u8>,
}

/// The ROM types in the order maps are walked.
pub open spec fn rom_type_order() -> Seq<RomType> {
    seq![RomType::Rom2316, RomType::Rom2332, RomType::Rom2364, RomType::Rom23128]
}

impl RomPinMap {
    pub open spec fn spec_get(self, rom_type: RomType) -> Option<u8> {
        match rom_type {
            RomType::Rom2316 => self.rom2316,
            RomType::Rom2332 => self.rom2332,
            RomType::Rom2364 => self.rom2364,
            RomType::Rom23128 => self.rom23128,
        }
    }

    /// The pins in the map, in ROM type order.
    pub open spec fn spec_values(self) -> Seq<u8> {
        let a = if self.rom2316 is Some { seq![self.rom2316.unwrap()] } else { Seq::empty() };
        let b = if self.rom2332 is Some { seq![self.rom2332.unwrap()] } else { Seq::empty() };
        let c = if self.rom2364 is Some { seq![self.rom2364.unwrap()] } else { Seq::empty() };
        let d = if self.rom23128 is Some { seq![self.rom23128.unwrap()] } else { Seq::empty() };
        a + b + c + d
    }

    /// A map with no entries.
    pub fn new() -> (m: Self)
        ensures
            m == (RomPinMap { rom2316: None, rom2332: None, rom2364: None, rom23128: None }),
            forall|t: RomType| m.spec_get(t) is None,
    {
        RomPinMap { rom2316: None, rom2332: None, rom2364: None, rom23128: None }
    }

    /// The pin for `rom_type`, if any.
    pub fn get(&self, rom_type: &RomType) -> (r: Option<u8>)
        ensures
            r == self.spec_get(*rom_type),
    {
        match rom_type {
            RomType::Rom2316 => self.rom2316,
            RomType::Rom2332 => self.rom2332,
            RomType::Rom2364 => self.rom2364,
            RomType::Rom23128 => self.rom23128,
        }
    }

    /// Sets the pin for `rom_type`, replacing any earlier one.
    pub fn insert(&mut self, rom_type: RomType, pin: u8)
        ensures
            *final(self) == old(self).spec_insert(rom_type, pin),
            final(self).spec_get(rom_type) == Some(pin),
            forall|t: RomType| t != rom_type ==> final(self).spec_get(t) == old(self).spec_get(t),
    {
        match rom_type {
            RomType::Rom2316 => self.rom2316 = Some(pin),
            RomType::Rom2332 => self.rom2332 = Some(pin),
            RomType::Rom2364 => self.rom2364 = Some(pin),
            RomType::Rom23128 => self.rom23128 = Some(pin),
        }
    }

    /// The pins in the map, in ROM type order.
    pub fn values(&self) -> (r: Vec<u8>)
        ensures
            r@ == self.spec_values(),
    {
        let mut v: Vec<u8> = Vec::new();
        if let Some(p) = self.rom2316 {
            v.push(p);
        }
        if let Some(p) = self.rom2332 {
            v.push(p);
        }
        if let Some(p) = self.rom2364 {
            v.push(p);
        }
        if let Some(p) = self.rom23128 {
            v.push(p);
        }
        assert(v@ =~= self.spec_values());
        v
    }

    /// The map built from `(name, pin)` entries, where each name lower-cases
    /// to a ROM type name; later entries for the same type win.
    pub open spec fn spec_from_entries(entries: Seq<(Seq<char>, u8)>) -> Result<
        RomPinMap,
        Seq<char>,
    >
        decreases entries.len(),
    {
        if entries.len() == 0 {
            Ok(RomPinMap { rom2316: None, rom2332: None, rom2364: None, rom23128: None })
        } else {
            match Self::spec_from_entries(entries.drop_last()) {
                Err(k) => Err(k),
                Ok(m) => match RomType::spec_from_lowercase(spec_to_lowercase(entries.last().0)) {
                    None => Err(entries.last().0),
                    Some(t) => Ok(m.spec_insert(t, entries.last().1)),
                },
            }
        }
    }

    pub open spec fn spec_insert(self, rom_type: RomType, pin: u8) -> RomPinMap {
        match rom_type {
            RomType::Rom2316 => RomPinMap { rom2316: Some(pin), ..self },
            RomType::Rom2332 => RomPinMap { rom2332: Some(pin), ..self },
            RomType::Rom2364 => RomPinMap { rom2364: Some(pin), ..self },
            RomType::Rom23128 => RomPinMap { rom23128: Some(pin), ..self },
        }
    }

    /// Builds a map from the `(ROM type name, pin)` entries of a
    /// configuration file; an unknown name is refused and returned.
    pub fn from_entries(entries: &[(String, u8)]) -> (r: Result<RomPinMap, HwConfigError>)
        ensures
            match Self::spec_from_entries(entries@.map_values(|e: (String, u8)| (e.0@, e.1))) {
                Ok(m) => r == Ok::<RomPinMap, HwConfigError>(m),
                Err(k) => r matches Err(e) && e@ == HwConfigErrorView::InvalidRomType { key: k },
            },
    {
        let ghost view = entries@.map_values(|e: (String, u8)| (e.0@, e.1));
        let mut map = RomPinMap::new();
        assert(view.take(0) =~= Seq::<(Seq<char>, u8)>::empty());
        for i in 0..entries.len()
            invariant
                view == entries@.map_values(|e: (String, u8)| (e.0@, e.1)),
                Self::spec_from_entries(view.take(i as int)) == Ok::<RomPinMap, Seq<char>>(map),
        {
            assert(view.take(i + 1).drop_last() =~= view.take(i as int));
            let key = &entries[i].0;
            let pin = entries[i].1;
            match RomType::try_from_str(key.as_str()) {
                Some(t) => {
                    map.insert(t, pin);
                },
                None => {
                    proof {
                        Self::lemma_from_entries_err_extends(view, i + 1, view.len() as int);
                        assert(view.take(view.len() as int) =~= view);
                    }
                    return Err(HwConfigError::InvalidRomType { key: key.clone() });
                },
            }
        }
        assert(view.take(entries.len() as int) =~= view);
        Ok(map)
    }

    proof fn lemma_from_entries_err_extends(v: Seq<(Seq<char>, u8)>, j: int, n: int)
        requires
            0 <= j <= n <= v.len(),
            Self::spec_from_entries(v.take(j)) is Err,
        ensures
            Self::spec_from_entries(v.take(n)) == Self::spec_from_entries(v.take(j)),
        decreases n - j,
    {
        if n > j {
            Self::lemma_from_entries_err_extends(v, j, n - 1);
            assert(v.take(n).drop_last() =~= v.take(n - 1));
        }
    }
}

/// The function a pin serves, as named in error reports.
#[derive(Debug, Clone, Copy, PartialEq, Eq, Structural)]
pub enum PinRole {
    Data,
    Addr,
    Sel,
    Cs1,
    Cs2,
    Cs3,
    Ce,
    Oe,
    X1,
    X2,
    Status,
}

impl PinRole {
    /// Chip select style roles, which may share a pin with each other and
    /// with address lines.
    pub open spec fn spec_is_cs(self) -> bool {
        self == PinRole::Cs1 || self == PinRole::Cs2 || self == PinRole::Cs3 || self == PinRole::Ce
            || self == PinRole::Oe
    }

    /// Whether the role is one of the chip select style roles.
    pub fn is_cs(&self) -> (r: bool)
        ensures
            r == self.spec_is_cs(),
    {
        match self {
            PinRole::Cs1 | PinRole::Cs2 | PinRole::Cs3 | PinRole::Ce | PinRole::Oe => true,
            _ => false,
        }
    }
}

/// Why a hardware configuration was refused.
#[derive(Debug, Clone)]
pub enum HwConfigError {
    /// There must be exactly 8 data pins.
    DataPinCount { found: usize },
    /// A pin number that does not exist on the family (and is not 255).
    InvalidPinNumber { role: PinRole, rom_type: Option<RomType>, pin: u8 },
    /// A pin listed twice in one pin array.
    DuplicatePin { role: PinRole, pin: u8 },
    /// A pin array longer than allowed.
    TooManyPins { role: PinRole, max: u8 },
    /// A pin above the range allowed for its function.
    InvalidPinValue { role: PinRole, pin: u8, max: u8 },
    /// The ROM socket is neither 24 nor 28 pin.
    UnsupportedRomPins { quantity: u8 },
    /// Data lines on a port the family does not allow.
    WrongDataPort { expected: Port, found: Port },
    /// Address lines on a port the family does not allow.
    WrongAddrPort { expected: Port, found: Port },
    /// Chip select lines on a port the family does not allow.
    WrongCsPort { expected: Port, found: Port },
    /// Image select lines on a port the family does not allow.
    WrongSelPort { expected: Port, found: Port },
    /// `sel_jumper_pull` must be 0 or 1.
    InvalidSelJumperPull,
    /// X1/X2 on a pin the family does not allow for it.
    InvalidXPin { role: PinRole, pin: u8 },
    /// Only one of X1 and X2 given.
    XPinsUnpaired,
    /// A pin of a port used by functions that cannot share it.
    PinConflict { port: Port, pin: u8, roles: Vec<PinRole> },
    /// A data pin outside the range usable for data.
    MissingDataPin { pin: u8 },
    /// A pin map keyed by an unknown ROM type name.
    InvalidRomType { key: String },
}

/// [`HwConfigError`] with its collections seen as sequences.
pub enum HwConfigErrorView {
    DataPinCount { found: usize },
    InvalidPinNumber { role: PinRole, rom_type: Option<RomType>, pin: u8 },
    DuplicatePin { role: PinRole, pin: u8 },
    TooManyPins { role: PinRole, max: u8 },
    InvalidPinValue { role: PinRole, pin: u8, max: u8 },
    UnsupportedRomPins { quantity: u8 },
    WrongDataPort { expected: Port, found: Port },
    WrongAddrPort { expected: Port, found: Port },
    WrongCsPort { expected: Port, found: Port },
    WrongSelPort { expected: Port, found: Port },
    InvalidSelJumperPull,
    InvalidXPin { role: PinRole, pin: u8 },
    XPinsUnpaired,
    PinConflict { port: Port, pin: u8, roles: Seq<PinRole> },
    MissingDataPin { pin: u8 },
    InvalidRomType { key: Seq<char> },
}

impl View for HwConfigError {
    type V = HwConfigErrorView;

    open spec fn view(&self) -> HwConfigErrorView {
        match self {
            HwConfigError::DataPinCount { found } => HwConfigErrorView::DataPinCount { found: *found },
            HwConfigError::InvalidPinNumber { role, rom_type, pin } =>
                HwConfigErrorView::InvalidPinNumber { role: *role, rom_type: *rom_type, pin: *pin },
            HwConfigError::DuplicatePin { role, pin } => HwConfigErrorView::DuplicatePin {
                role: *role,
                pin: *pin,
            },
            HwConfigError::TooManyPins { role, max } => HwConfigErrorView::TooManyPins {
                role: *role,
                max: *max,
            },
            HwConfigError::InvalidPinValue { role, pin, max } => HwConfigErrorView::InvalidPinValue {
                role: *role,
                pin: *pin,
                max: *max,
            },
            HwConfigError::UnsupportedRomPins { quantity } => HwConfigErrorView::UnsupportedRomPins {
                quantity: *quantity,
            },
            HwConfigError::WrongDataPort { expected, found } => HwConfigErrorView::WrongDataPort {
                expected: *expected,
                found: *found,
            },
            HwConfigError::WrongAddrPort { expected, found } => HwConfigErrorView::WrongAddrPort {
                expected: *expected,
                found: *found,
            },
            HwConfigError::WrongCsPort { expected, found } => HwConfigErrorView::WrongCsPort {
                expected: *expected,
                found: *found,
            },
            HwConfigError::WrongSelPort { expected, found } => HwConfigErrorView::WrongSelPort {
                expected: *expected,
                found: *found,
            },
            HwConfigError::InvalidSelJumperPull => HwConfigErrorView::InvalidSelJumperPull,
            HwConfigError::InvalidXPin { role, pin } => HwConfigErrorView::InvalidXPin {
                role: *role,
                pin: *pin,
            },
            HwConfigError::XPinsUnpaired => HwConfigErrorView::XPinsUnpaired,
            HwConfigError::PinConflict { port, pin, roles } => HwConfigErrorView::PinConflict {
                port: *port,
                pin: *pin,
                roles: roles@,
            },
            HwConfigError::MissingDataPin { pin } => HwConfigErrorView::MissingDataPin { pin: *pin },
            HwConfigError::InvalidRomType { key } => HwConfigErrorView::InvalidRomType { key: key@ },
        }
    }
}

/// The pins each signal is wired to.
#[derive(Debug, Clone)]
pub struct McuPins {
    pub data: Vec<u8>,
    pub addr: Vec<u8>,
    pub cs1: RomPinMap,
    pub cs2: RomPinMap,
    pub cs3: RomPinMap,
    pub x1: Option<u8>,
    pub x2: Option<u8>,
    pub ce: RomPinMap,
    pub oe: RomPinMap,
    pub x_jumper_pull: u8,
    pub sel: Vec<u8>,
    pub sel_jumper_pull: u8,
    pub status: u8,
}

/// Whether the board has USB.
#[derive(Debug, Clone, Copy, PartialEq, Eq, Structural)]
pub struct McuUsb {
    pub present: bool,
}

/// The MCU of a board and how it is wired.
#[derive(Debug, Clone)]
pub struct Mcu {
    pub family: McuFamily,
    pub ports: McuPorts,
    pub pins: McuPins,
    pub usb: Option<McuUsb>,
}

/// Whether `pin` may be named for a function: it exists on the family, or it
/// is 255, meaning "not exposed".
pub open spec fn pin_number_ok(family: McuFamily, pin: u8) -> bool {
    family.spec_valid_pin_num(pin) || pin == 255
}

/// Checks one pin number; `rom_type` names the map entry it came from.
pub fn validate_pin_number(mcu: &Mcu, pin: u8, role: PinRole, rom_type: Option<RomType>) -> (r:
    Result<(), HwConfigError>)
    ensures
        r is Ok <==> pin_number_ok(mcu.family, pin),
        r matches Err(e) ==> e@ == (HwConfigErrorView::InvalidPinNumber { role, rom_type, pin }),
{
    if !mcu.family.valid_pin_num(pin) && pin != 255 {
        return Err(HwConfigError::InvalidPinNumber { role, rom_type, pin });
    }
    Ok(())
}

/// The error for the first entry of `map` (in ROM type order) whose pin is
/// not allowed, if any.
pub open spec fn rom_types_error(family: McuFamily, map: RomPinMap, role: PinRole) -> Option<
    HwConfigErrorView,
> {
    if map.rom2316 is Some && !pin_number_ok(family, map.rom2316.unwrap()) {
        Some(
            HwConfigErrorView::InvalidPinNumber {
                role,
                rom_type: Some(RomType::Rom2316),
                pin: map.rom2316.unwrap(),
            },
        )
    } else if map.rom2332 is Some && !pin_number_ok(family, map.rom2332.unwrap()) {
        Some(
            HwConfigErrorView::InvalidPinNumber {
                role,
                rom_type: Some(RomType::Rom2332),
                pin: map.rom2332.unwrap(),
            },
        )
    } else if map.rom2364 is Some && !pin_number_ok(family, map.rom2364.unwrap()) {
        Some(
            HwConfigErrorView::InvalidPinNumber {
                role,
                rom_type: Some(RomType::Rom2364),
                pin: map.rom2364.unwrap(),
            },
        )
    } else if map.rom23128 is Some && !pin_number_ok(family, map.rom23128.unwrap()) {
        Some(
            HwConfigErrorView::InvalidPinNumber {
                role,
                rom_type: Some(RomType::Rom23128),
                pin: map.rom23128.unwrap(),
            },
        )
    } else {
        None
    }
}

/// The result a check returns for an error that may or may not be present.
pub open spec fn check_matches(r: Result<(), HwConfigError>, e: Option<HwConfigErrorView>) -> bool {
    match e {
        None => r is Ok,
        Some(v) => r matches Err(x) && x@ == v,
    }
}

/// Checks every pin of a ROM type pin map.
pub fn validate_rom_types(mcu: &Mcu, rom_map: &RomPinMap, role: PinRole) -> (r: Result<
    (),
    HwConfigError,
>)
    ensures
        check_matches(r, rom_types_error(mcu.family, *rom_map, role)),
{
    if let Some(pin) = rom_map.rom2316 {
        validate_pin_number(mcu, pin, role, Some(RomType::Rom2316))?;
    }
    if let Some(pin) = rom_map.rom2332 {
        validate_pin_number(mcu, pin, role, Some(RomType::Rom2332))?;
    }
    if let Some(pin) = rom_map.rom2364 {
        validate_pin_number(mcu, pin, role, Some(RomType::Rom2364))?;
    }
    if let Some(pin) = rom_map.rom23128 {
        validate_pin_number(mcu, pin, role, Some(RomType::Rom23128))?;
    }
    Ok(())
}

/// Scans a pin array from index `i`: the first pin that is not allowed, or
/// that repeats an earlier pin.
pub open spec fn pin_array_scan(family: McuFamily, pins: Seq<u8>, role: PinRole, i: int) -> Option<
    HwConfigErrorView,
>
    decreases pins.len() - i,
{
    if i < 0 || i >= pins.len() {
        None
    } else if !pin_number_ok(family, pins[i]) {
        Some(HwConfigErrorView::InvalidPinNumber { role, rom_type: None, pin: pins[i] })
    } else if pins.take(i).contains(pins[i]) {
        Some(HwConfigErrorView::DuplicatePin { role, pin: pins[i] })
    } else {
        pin_array_scan(family, pins, role, i + 1)
    }
}

/// The error for a pin array: its first bad or repeated pin, else too many
/// pins.
pub open spec fn pin_array_error(family: McuFamily, pins: Seq<u8>, role: PinRole, max_pins: u8) -> Option<
    HwConfigErrorView,
> {
    let scan = pin_array_scan(family, pins, role, 0);
    if scan is Some {
        scan
    } else if pins.len() > max_pins {
        Some(HwConfigErrorView::TooManyPins { role, max: max_pins })
    } else {
        None
    }
}

fn contains_before(pins: &[u8], i: usize, pin: u8) -> (r: bool)
    requires
        i <= pins@.len(),
    ensures
        r == pins@.take(i as int).contains(pin),
{
    for j in 0..i
        invariant
            i <= pins@.len(),
            forall|k: int| 0 <= k < j ==> pins@[k] != pin,
    {
        if pins[j] == pin {
            assert(pins@.take(i as int)[j as int] == pin);
            return true;
        }
    }
    proof {
        if pins@.take(i as int).contains(pin) {
            let k = choose|k: int| 0 <= k < i && pins@.take(i as int)[k] == pin;
            assert(pins@[k] == pin);
        }
    }
    false
}

/// Checks a pin array: every pin allowed, none repeated, at most `max_pins`.
pub fn validate_pin_array(mcu: &Mcu, pins: &[u8], role: PinRole, max_pins: u8) -> (r: Result<
    (),
    HwConfigError,
>)
    ensures
        check_matches(r, pin_array_error(mcu.family, pins@, role, max_pins)),
{
    let mut num_pins: usize = 0;
    for i in 0..pins.len()
        invariant
            num_pins == i,
            pin_array_scan(mcu.family, pins@, role, 0) == pin_array_scan(
                mcu.family,
                pins@,
                role,
                i as int,
            ),
    {
        let pin = pins[i];
        validate_pin_number(mcu, pin, role, None)?;
        if contains_before(pins, i, pin) {
            return Err(HwConfigError::DuplicatePin { role, pin });
        }
        num_pins = num_pins + 1;
    }
    if num_pins > max_pins as usize {
        return Err(HwConfigError::TooManyPins { role, max: max_pins });
    }
    Ok(())
}

/// Scans the first `min_valid` pins from index `i` for one above
/// `valid_value`.
pub open spec fn pin_values_scan(
    pins: Seq<u8>,
    role: PinRole,
    min_valid: usize,
    valid_value: u8,
    i: int,
) -> Option<HwConfigErrorView>
    decreases pins.len() - i,
{
    if i < 0 || i >= pins.len() || i >= min_valid {
        None
    } else if pins[i] > valid_value {
        Some(HwConfigErrorView::InvalidPinValue { role, pin: pins[i], max: valid_value })
    } else {
        pin_values_scan(pins, role, min_valid, valid_value, i + 1)
    }
}

/// Checks that each of the first `min_valid` pins is at most `valid_value`.
pub fn validate_pin_values(pins: &[u8], role: PinRole, min_valid: usize, valid_value: u8) -> (r:
    Result<(), HwConfigError>)
    ensures
        check_matches(r, pin_values_scan(pins@, role, min_valid, valid_value, 0)),
{
    let mut ii: usize = 0;
    while ii < pins.len() && ii < min_valid
        invariant
            ii <= pins.len(),
            pin_values_scan(pins@, role, min_valid, valid_value, 0) == pin_values_scan(
                pins@,
                role,
                min_valid,
                valid_value,
                ii as int,
            ),
        decreases pins.len() - ii,
    {
        let pin = pins[ii];
        if pin > valid_value {
            return Err(HwConfigError::InvalidPinValue { role, pin, max: valid_value });
        }
        ii = ii + 1;
    }
    Ok(())
}

/// A pin in use: its port, what it serves, and its number.
pub type PinUse = (Port, PinRole, u8);

/// The uses of each pin in `pins` for one role on one port.
pub open spec fn role_uses(port: Port, role: PinRole, pins: Seq<u8>) -> Seq<PinUse> {
    pins.map_values(|p: u8| (port, role, p))
}

/// The use of an optional pin.
pub open spec fn opt_use(port: Port, role: PinRole, pin: Option<u8>) -> Seq<PinUse> {
    match pin {
        Some(p) => seq![(port, role, p)],
        None => Seq::empty(),
    }
}

/// Every pin the MCU wiring uses, in order: data, address and select lines
/// on their ports, then CS1, CS2, CS3, X1, X2, CE and OE on the chip select
/// port, then the status LED.
pub open spec fn spec_pin_uses(mcu: Mcu) -> Seq<PinUse> {
    let ports = mcu.ports;
    let pins = mcu.pins;
    role_uses(ports.data_port, PinRole::Data, pins.data@) + role_uses(
        ports.addr_port,
        PinRole::Addr,
        pins.addr@,
    ) + role_uses(ports.sel_port, PinRole::Sel, pins.sel@) + role_uses(
        ports.cs_port,
        PinRole::Cs1,
        pins.cs1.spec_values(),
    ) + role_uses(ports.cs_port, PinRole::Cs2, pins.cs2.spec_values()) + role_uses(
        ports.cs_port,
        PinRole::Cs3,
        pins.cs3.spec_values(),
    ) + opt_use(ports.cs_port, PinRole::X1, pins.x1) + opt_use(ports.cs_port, PinRole::X2, pins.x2)
        + role_uses(ports.cs_port, PinRole::Ce, pins.ce.spec_values()) + role_uses(
        ports.cs_port,
        PinRole::Oe,
        pins.oe.spec_values(),
    ) + seq![(ports.status_port, PinRole::Status, pins.status)]
}

/// The roles using pin `pin` of port `port`, in order of use.
pub open spec fn labels_at(uses: Seq<PinUse>, port: Port, pin: u8) -> Seq<PinRole>
    decreases uses.len(),
{
    if uses.len() == 0 {
        Seq::empty()
    } else {
        let rest = labels_at(uses.drop_last(), port, pin);
        if uses.last().0 == port && uses.last().2 == pin {
            rest.push(uses.last().1)
        } else {
            rest
        }
    }
}

/// Roles that may share one pin: at least one chip select style role, and
/// nothing but chip select style roles and address lines.
pub open spec fn shareable(g: Seq<PinRole>) -> bool {
    &&& exists|k: int| 0 <= k < g.len() && #[trigger] g[k].spec_is_cs()
    &&& forall|k: int| 0 <= k < g.len() ==> #[trigger] g[k].spec_is_cs() || g[k] == PinRole::Addr
}

/// Whether the pin of use `i` is used by more than one role that may not
/// share it.
pub open spec fn conflict_at(uses: Seq<PinUse>, i: int) -> bool {
    let g = labels_at(uses, uses[i].0, uses[i].2);
    g.len() > 1 && !shareable(g)
}

/// The conflict at the first use from `i` on whose pin is in conflict.
pub open spec fn conflict_scan(uses: Seq<PinUse>, i: int) -> Option<HwConfigErrorView>
    decreases uses.len() - i,
{
    if i < 0 || i >= uses.len() {
        None
    } else if conflict_at(uses, i) {
        Some(
            HwConfigErrorView::PinConflict {
                port: uses[i].0,
                pin: uses[i].2,
                roles: labels_at(uses, uses[i].0, uses[i].2),
            },
        )
    } else {
        conflict_scan(uses, i + 1)
    }
}

fn push_role_uses(uses: &mut Vec<PinUse>, port: Port, role: PinRole, pins: &[u8])
    ensures
        final(uses)@ == old(uses)@ + role_uses(port, role, pins@),
{
    let ghost start = uses@;
    for i in 0..pins.len()
        invariant
            uses@ == start + role_uses(port, role, pins@.take(i as int)),
    {
        uses.push((port, role, pins[i]));
        assert(role_uses(port, role, pins@.take(i + 1)) =~= role_uses(
            port,
            role,
            pins@.take(i as int),
        ).push((port, role, pins@[i as int])));
    }
    assert(pins@.take(pins.len() as int) =~= pins@);
}

fn push_opt_use(uses: &mut Vec<PinUse>, port: Port, role: PinRole, pin: Option<u8>)
    ensures
        final(uses)@ == old(uses)@ + opt_use(port, role, pin),
{
    if let Some(p) = pin {
        uses.push((port, role, p));
    }
    assert(uses@ =~= old(uses)@ + opt_use(port, role, pin));
}

/// Every pin the MCU wiring uses (see [`spec_pin_uses`]).
pub fn pin_uses(mcu: &Mcu) -> (r: Vec<PinUse>)
    ensures
        r@ == spec_pin_uses(*mcu),
{
    let ports = &mcu.ports;
    let pins = &mcu.pins;
    let mut uses: Vec<PinUse> = Vec::new();
    push_role_uses(&mut uses, ports.data_port, PinRole::Data, pins.data.as_slice());
    push_role_uses(&mut uses, ports.addr_port, PinRole::Addr, pins.addr.as_slice());
    push_role_uses(&mut uses, ports.sel_port, PinRole::Sel, pins.sel.as_slice());
    let cs1 = pins.cs1.values();
    push_role_uses(&mut uses, ports.cs_port, PinRole::Cs1, cs1.as_slice());
    let cs2 = pins.cs2.values();
    push_role_uses(&mut uses, ports.cs_port, PinRole::Cs2, cs2.as_slice());
    let cs3 = pins.cs3.values();
    push_role_uses(&mut uses, ports.cs_port, PinRole::Cs3, cs3.as_slice());
    push_opt_use(&mut uses, ports.cs_port, PinRole::X1, pins.x1);
    push_opt_use(&mut uses, ports.cs_port, PinRole::X2, pins.x2);
    let ce = pins.ce.values();
    push_role_uses(&mut uses, ports.cs_port, PinRole::Ce, ce.as_slice());
    let oe = pins.oe.values();
    push_role_uses(&mut uses, ports.cs_port, PinRole::Oe, oe.as_slice());
    uses.push((ports.status_port, PinRole::Status, pins.status));
    assert(uses@ =~= spec_pin_uses(*mcu));
    uses
}

/// The roles using pin `pin` of port `port`.
pub fn roles_at(uses: &[PinUse], port: Port, pin: u8) -> (r: Vec<PinRole>)
    ensures
        r@ == labels_at(uses@, port, pin),
{
    let mut roles: Vec<PinRole> = Vec::new();
    for j in 0..uses.len()
        invariant
            roles@ == labels_at(uses@.take(j as int), port, pin),
    {
        assert(uses@.take(j + 1).drop_last() =~= uses@.take(j as int));
        let u = uses[j];
        if u.0 == port && u.2 == pin {
            roles.push(u.1);
        }
    }
    assert(uses@.take(uses.len() as int) =~= uses@);
    roles
}

/// Whether the roles may share a pin (see [`shareable`]).
pub fn roles_shareable(g: &[PinRole]) -> (r: bool)
    ensures
        r == shareable(g@),
{
    let mut has_cs = false;
    let mut all_cs_or_addr = true;
    for k in 0..g.len()
        invariant
            has_cs == exists|m: int| 0 <= m < k && #[trigger] g@[m].spec_is_cs(),
            all_cs_or_addr == forall|m: int|
                0 <= m < k ==> #[trigger] g@[m].spec_is_cs() || g@[m] == PinRole::Addr,
    {
        let cs = g[k].is_cs();
        if cs {
            has_cs = true;
        }
        if !cs && g[k] != PinRole::Addr {
            all_cs_or_addr = false;
        }
    }
    has_cs && all_cs_or_addr
}

/// Checks that no pin is used by roles that may not share it.
pub fn validate_pin_conflicts(uses: &[PinUse]) -> (r: Result<(), HwConfigError>)
    ensures
        check_matches(r, conflict_scan(uses@, 0)),
{
    for i in 0..uses.len()
        invariant
            conflict_scan(uses@, 0) == conflict_scan(uses@, i as int),
    {
        let (port, _, pin) = uses[i];
        let roles = roles_at(uses, port, pin);
        if roles.len() > 1 && !roles_shareable(roles.as_slice()) {
            return Err(HwConfigError::PinConflict { port, pin, roles });
        }
    }
    Ok(())
}

/// The first problem `validate_config` reports for an MCU wiring on a
/// socket of `quantity` pins, if any.
pub open spec fn spec_validate_config(quantity: u8, mcu: Mcu) -> Option<HwConfigErrorView> {
    let f = mcu.family;
    let pins = mcu.pins;
    let ports = mcu.ports;
    if pins.data.len() != 8 {
        Some(HwConfigErrorView::DataPinCount { found: pins.data.len() })
    } else if pin_array_error(f, pins.data@, PinRole::Data, 8) is Some {
        pin_array_error(f, pins.data@, PinRole::Data, 8)
    } else if pin_array_error(f, pins.addr@, PinRole::Addr, 16) is Some {
        pin_array_error(f, pins.addr@, PinRole::Addr, 16)
    } else if pin_array_error(f, pins.sel@, PinRole::Sel, 7) is Some {
        pin_array_error(f, pins.sel@, PinRole::Sel, 7)
    } else if pin_values_scan(pins.data@, PinRole::Data, 8, f.spec_max_valid_data_pin(), 0) is Some {
        pin_values_scan(pins.data@, PinRole::Data, 8, f.spec_max_valid_data_pin(), 0)
    } else if quantity == 24 && pin_values_scan(
        pins.addr@,
        PinRole::Addr,
        13,
        f.spec_max_valid_addr_pin(),
        0,
    ) is Some {
        pin_values_scan(pins.addr@, PinRole::Addr, 13, f.spec_max_valid_addr_pin(), 0)
    } else if quantity == 28 && pin_values_scan(pins.addr@, PinRole::Addr, 14, 15, 0) is Some {
        pin_values_scan(pins.addr@, PinRole::Addr, 14, 15, 0)
    } else if quantity != 24 && quantity != 28 {
        Some(HwConfigErrorView::UnsupportedRomPins { quantity })
    } else if rom_types_error(f, pins.cs1, PinRole::Cs1) is Some {
        rom_types_error(f, pins.cs1, PinRole::Cs1)
    } else if rom_types_error(f, pins.cs2, PinRole::Cs2) is Some {
        rom_types_error(f, pins.cs2, PinRole::Cs2)
    } else if rom_types_error(f, pins.cs3, PinRole::Cs3) is Some {
        rom_types_error(f, pins.cs3, PinRole::Cs3)
    } else if rom_types_error(f, pins.ce, PinRole::Ce) is Some {
        rom_types_error(f, pins.ce, PinRole::Ce)
    } else if rom_types_error(f, pins.oe, PinRole::Oe) is Some {
        rom_types_error(f, pins.oe, PinRole::Oe)
    } else if ports.data_port != f.spec_allowed_data_port() {
        Some(
            HwConfigErrorView::WrongDataPort {
                expected: f.spec_allowed_data_port(),
                found: ports.data_port,
            },
        )
    } else if ports.addr_port != f.spec_allowed_addr_port() {
        Some(
            HwConfigErrorView::WrongAddrPort {
                expected: f.spec_allowed_addr_port(),
                found: ports.addr_port,
            },
        )
    } else if ports.cs_port != f.spec_allowed_cs_port() {
        Some(
            HwConfigErrorView::WrongCsPort { expected: f.spec_allowed_cs_port(), found: ports.cs_port },
        )
    } else if ports.sel_port != f.spec_allowed_sel_port() {
        Some(
            HwConfigErrorView::WrongSelPort {
                expected: f.spec_allowed_sel_port(),
                found: ports.sel_port,
            },
        )
    } else if pins.x1 is Some && !pin_number_ok(f, pins.x1.unwrap()) {
        Some(
            HwConfigErrorView::InvalidPinNumber {
                role: PinRole::X1,
                rom_type: None,
                pin: pins.x1.unwrap(),
            },
        )
    } else if pins.x2 is Some && !pin_number_ok(f, pins.x2.unwrap()) {
        Some(
            HwConfigErrorView::InvalidPinNumber {
                role: PinRole::X2,
                rom_type: None,
                pin: pins.x2.unwrap(),
            },
        )
    } else if pins.sel_jumper_pull > 1 {
        Some(HwConfigErrorView::InvalidSelJumperPull)
    } else if pins.x1 is Some && !f.spec_valid_x_pins(false).contains(pins.x1.unwrap()) {
        Some(HwConfigErrorView::InvalidXPin { role: PinRole::X1, pin: pins.x1.unwrap() })
    } else if pins.x2 is Some && !f.spec_valid_x_pins(true).contains(pins.x2.unwrap()) {
        Some(HwConfigErrorView::InvalidXPin { role: PinRole::X2, pin: pins.x2.unwrap() })
    } else if (pins.x1 is Some) != (pins.x2 is Some) {
        Some(HwConfigErrorView::XPinsUnpaired)
    } else {
        conflict_scan(spec_pin_uses(mcu), 0)
    }
}

fn vec_contains(v: &[u8], x: u8) -> (r: bool)
    ensures
        r == v@.contains(x),
{
    for i in 0..v.len()
        invariant
            forall|k: int| 0 <= k < i ==> v@[k] != x,
    {
        if v[i] == x {
            assert(v@[i as int] == x);
            return true;
        }
    }
    false
}

/// Lookup tables from physical pins to ROM address and data lines, built by
/// [`HwConfig::new`].
#[derive(Debug, Clone)]
pub struct PinMaps {
    phys_pin_to_addr_map: Vec<Option<usize>>,
    phys_pin_to_data_map: [usize; 8],
}

impl PinMaps {
    /// Address line served by each physical pin of the address port.
    pub closed spec fn addr_view(self) -> Seq<Option<usize>> {
        self.phys_pin_to_addr_map@
    }

    /// Data line served by each of the 8 physical data pins.
    pub closed spec fn data_view(self) -> Seq<usize> {
        self.phys_pin_to_data_map@
    }
}

/// The hardware configuration of one board revision.
#[derive(Debug, Clone)]
pub struct HwConfig {
    pub name: String,
    pub description: String,
    pub rom: Rom,
    pub mcu: Mcu,
    pub pin_maps: PinMaps,
}

/// Validates a hardware configuration: pin counts, pin numbers and values,
/// ports, X1/X2 and that no pin is shared by functions that cannot share it.
pub fn validate_config(config: &HwConfig) -> (r: Result<(), HwConfigError>)
    ensures
        check_matches(r, spec_validate_config(config.rom.pins.quantity, config.mcu)),
{
    let mcu = &config.mcu;
    let pins = &mcu.pins;
    let ports = &mcu.ports;
    let family = mcu.family;
    if pins.data.len() != 8 {
        return Err(HwConfigError::DataPinCount { found: pins.data.len() });
    }
    validate_pin_array(mcu, pins.data.as_slice(), PinRole::Data, 8)?;
    validate_pin_array(mcu, pins.addr.as_slice(), PinRole::Addr, 16)?;
    validate_pin_array(mcu, pins.sel.as_slice(), PinRole::Sel, 7)?;
    validate_pin_values(pins.data.as_slice(), PinRole::Data, 8, family.max_valid_data_pin())?;
    let quantity = config.rom.pins.quantity;
    if quantity == 24 {
        validate_pin_values(pins.addr.as_slice(), PinRole::Addr, 13, family.max_valid_addr_pin())?;
    } else if quantity == 28 {
        validate_pin_values(pins.addr.as_slice(), PinRole::Addr, 14, 15)?;
    } else {
        return Err(HwConfigError::UnsupportedRomPins { quantity });
    }
    validate_rom_types(mcu, &pins.cs1, PinRole::Cs1)?;
    validate_rom_types(mcu, &pins.cs2, PinRole::Cs2)?;
    validate_rom_types(mcu, &pins.cs3, PinRole::Cs3)?;
    validate_rom_types(mcu, &pins.ce, PinRole::Ce)?;
    validate_rom_types(mcu, &pins.oe, PinRole::Oe)?;
    if ports.data_port != family.allowed_data_port() {
        return Err(
            HwConfigError::WrongDataPort {
                expected: family.allowed_data_port(),
                found: ports.data_port,
            },
        );
    }
    if ports.addr_port != family.allowed_addr_port() {
        return Err(
            HwConfigError::WrongAddrPort {
                expected: family.allowed_addr_port(),
                found: ports.addr_port,
            },
        );
    }
    if ports.cs_port != family.allowed_cs_port() {
        return Err(
            HwConfigError::WrongCsPort { expected: family.allowed_cs_port(), found: ports.cs_port },
        );
    }
    if ports.sel_port != family.allowed_sel_port() {
        return Err(
            HwConfigError::WrongSelPort {
                expected: family.allowed_sel_port(),
                found: ports.sel_port,
            },
        );
    }
    if let Some(pin) = pins.x1 {
        validate_pin_number(mcu, pin, PinRole::X1, None)?;
    }
    if let Some(pin) = pins.x2 {
        validate_pin_number(mcu, pin, PinRole::X2, None)?;
    }
    let uses = pin_uses(mcu);
    if pins.sel_jumper_pull > 1 {
        return Err(HwConfigError::InvalidSelJumperPull);
    }
    if let Some(x1_pin) = pins.x1 {
        let valid_pins = family.valid_x1_pins();
        if !vec_contains(valid_pins.as_slice(), x1_pin) {
            return Err(HwConfigError::InvalidXPin { role: PinRole::X1, pin: x1_pin });
        }
    }
    if let Some(x2_pin) = pins.x2 {
        let valid_pins = family.valid_x2_pins();
        if !vec_contains(valid_pins.as_slice(), x2_pin) {
            return Err(HwConfigError::InvalidXPin { role: PinRole::X2, pin: x2_pin });
        }
    }
    if pins.x1.is_some() != pins.x2.is_some() {
        return Err(HwConfigError::XPinsUnpaired);
    }
    validate_pin_conflicts(uses.as_slice())
}

/// A configuration name in canonical form: lower case, `-` for `_`.
pub open spec fn spec_normalize_name(name: Seq<char>) -> Seq<char> {
    replace_char(spec_to_lowercase(name), '_', '-')
}

/// Puts a configuration name in canonical form: lower-cased, with `_`
/// replaced by `-`.
pub fn normalize_name(name: &str) -> (r: String)
    ensures
        r@ == spec_normalize_name(name@),
        is_ascii_chars(name@) ==> r@ == replace_char(ascii_lowercase(name@), '_', '-'),
{
    let lower = str_to_lowercase(name);
    replace_char_in(lower.as_str(), '_', '-')
}

/// The address map after the first `k` address lines: each pin at most
/// `max_addr` maps to the last of those lines wired to it.
pub open spec fn addr_map_upto(addr: Seq<u8>, max_addr: u8, n: nat, k: int) -> Seq<Option<usize>>
    decreases k,
{
    if k <= 0 {
        Seq::new(n, |i: int| None)
    } else {
        let m = addr_map_upto(addr, max_addr, n, k - 1);
        if addr[k - 1] <= max_addr {
            m.update(addr[k - 1] as int, Some((k - 1) as usize))
        } else {
            m
        }
    }
}

/// The data map after the first `k` data lines: physical pin `p` (taken
/// modulo 8) maps to the last of those lines wired to it; others map to 0.
pub open spec fn data_map_upto(data: Seq<u8>, k: int) -> Seq<usize>
    decreases k,
{
    if k <= 0 {
        Seq::new(8, |i: int| 0usize)
    } else {
        data_map_upto(data, k - 1).update((data[k - 1] % 8) as int, (k - 1) as usize)
    }
}

/// Number of physical address-port pins mapped for a socket: the highest
/// address pin plus one for 24-pin sockets, 16 for 28-pin sockets.
pub open spec fn spec_num_phys_addr_pins(quantity: u8, family: McuFamily) -> nat {
    if quantity == 24 {
        (family.spec_max_valid_addr_pin() + 1) as nat
    } else {
        16
    }
}

proof fn lemma_pin_values_scan_none(pins: Seq<u8>, role: PinRole, min_valid: usize, v: u8, i: int)
    requires
        0 <= i,
        pin_values_scan(pins, role, min_valid, v, i) is None,
    ensures
        forall|j: int| i <= j < pins.len() && j < min_valid ==> pins[j] <= v,
    decreases pins.len() - i,
{
    if i < pins.len() && i < min_valid {
        lemma_pin_values_scan_none(pins, role, min_valid, v, i + 1);
    }
}

proof fn lemma_addr_map_len(addr: Seq<u8>, max_addr: u8, n: nat, k: int)
    requires
        max_addr < n,
    ensures
        addr_map_upto(addr, max_addr, n, k).len() == n,
    decreases k,
{
    if k > 0 {
        lemma_addr_map_len(addr, max_addr, n, k - 1);
    }
}

proof fn lemma_data_map_len(data: Seq<u8>, k: int)
    ensures
        data_map_upto(data, k).len() == 8,
    decreases k,
{
    if k > 0 {
        lemma_data_map_len(data, k - 1);
    }
}

impl HwConfig {
    /// The address map of a validated configuration.
    pub open spec fn spec_addr_map(rom: Rom, mcu: Mcu) -> Seq<Option<usize>> {
        addr_map_upto(
            mcu.pins.addr@,
            mcu.family.spec_max_valid_addr_pin(),
            spec_num_phys_addr_pins(rom.pins.quantity, mcu.family),
            mcu.pins.addr@.len() as int,
        )
    }

    /// The data map of a validated configuration.
    pub open spec fn spec_data_map(mcu: Mcu) -> Seq<usize> {
        data_map_upto(mcu.pins.data@, mcu.pins.data@.len() as int)
    }

    /// Builds a configuration from its parsed parts: normalises `name`,
    /// validates the wiring, and builds the pin-to-line maps.
    pub fn new(description: String, rom: Rom, mcu: Mcu, name: &str) -> (r: Result<
        Self,
        HwConfigError,
    >)
        ensures
            match spec_validate_config(rom.pins.quantity, mcu) {
                Some(e) => r matches Err(x) && x@ == e,
                None => r matches Ok(c) && c.name@ == spec_normalize_name(name@) && c.description
                    == description && c.rom == rom && c.mcu == mcu && c.pin_maps.addr_view()
                    == Self::spec_addr_map(rom, mcu) && c.pin_maps.data_view()
                    == Self::spec_data_map(mcu),
            },
    {
        let config = HwConfig {
            name: normalize_name(name),
            description,
            rom,
            mcu,
            pin_maps: PinMaps { phys_pin_to_addr_map: Vec::new(), phys_pin_to_data_map: [0; 8] },
        };
        validate_config(&config)?;
        let family = config.mcu.family;
        let max_addr = family.max_valid_addr_pin();
        let max_data = family.max_valid_data_pin();
        let quantity = config.rom.pins.quantity;
        let num_phys_addr_pins: usize = if quantity == 24 {
            max_addr as usize + 1
        } else if quantity == 28 {
            16
        } else {
            return Err(HwConfigError::UnsupportedRomPins { quantity });
        };
        let addr = &config.mcu.pins.addr;
        let ghost n = num_phys_addr_pins as nat;
        let mut addr_map: Vec<Option<usize>> = Vec::new();
        for i in 0..num_phys_addr_pins
            invariant
                addr_map@ == Seq::new(i as nat, |j: int| None::<usize>),
        {
            addr_map.push(None);
            assert(addr_map@ =~= Seq::new((i + 1) as nat, |j: int| None::<usize>));
        }
        assert(addr_map@ =~= addr_map_upto(addr@, max_addr, n, 0));
        for addr_line in 0..addr.len()
            invariant
                n == num_phys_addr_pins,
                max_addr < num_phys_addr_pins,
                addr_map@ == addr_map_upto(addr@, max_addr, n, addr_line as int),
        {
            proof {
                lemma_addr_map_len(addr@, max_addr, n, addr_line as int);
            }
            let phys_pin = addr[addr_line];
            if phys_pin <= max_addr {
                addr_map.set(phys_pin as usize, Some(addr_line));
            }
        }
        let data = &config.mcu.pins.data;
        proof {
            lemma_pin_values_scan_none(data@, PinRole::Data, 8, max_data, 0);
        }
        let mut data_map: [usize; 8] = [0; 8];
        assert(data_map@ =~= data_map_upto(data@, 0));
        for data_line in 0..data.len()
            invariant
                data.len() == 8,
                forall|j: int| 0 <= j < 8 ==> data@[j] <= max_data,
                data_map@ == data_map_upto(data@, data_line as int),
        {
            proof {
                lemma_data_map_len(data@, data_line as int);
            }
            let phys_pin = data[data_line];
            if phys_pin <= max_data {
                data_map[(phys_pin % 8) as usize] = data_line;
            } else {
                return Err(HwConfigError::MissingDataPin { pin: phys_pin });
            }
        }
        Ok(HwConfig {
            name: config.name,
            description: config.description,
            rom: config.rom,
            mcu: config.mcu,
            pin_maps: PinMaps { phys_pin_to_addr_map: addr_map, phys_pin_to_data_map: data_map },
        })
    }
}

/// The pin of an optional map entry, or 255 where there is none.
pub open spec fn pin_or_unset(p: Option<u8>) -> u8 {
    match p {
        Some(v) => v,
        None => 255,
    }
}

impl HwConfig {
    /// The address map with every line at or above `num_addr_lines` removed.
    pub open spec fn spec_addr_map_for(self, num_addr_lines: usize) -> Seq<Option<usize>> {
        self.pin_maps.addr_view().map_values(
            |e: Option<usize>|
                match e {
                    Some(a) => if a < num_addr_lines { Some(a) } else { None },
                    None => None,
                },
        )
    }

    /// Physical address-port pin to address line, for a ROM with
    /// `num_addr_lines` address lines: pins wired to higher lines map to
    /// nothing.
    pub fn get_phys_pin_to_addr_map(&self, num_addr_lines: usize) -> (r: Vec<Option<usize>>)
        ensures
            r@ == self.spec_addr_map_for(num_addr_lines),
    {
        let src = &self.pin_maps.phys_pin_to_addr_map;
        let mut map: Vec<Option<usize>> = Vec::new();
        for i in 0..src.len()
            invariant
                src@ == self.pin_maps.addr_view(),
                map@ == self.pin_maps.addr_view().take(i as int).map_values(
                    |e: Option<usize>|
                        match e {
                            Some(a) => if a < num_addr_lines { Some(a) } else { None },
                            None => None,
                        },
                ),
        {
            let entry = match src[i] {
                Some(a) => if a < num_addr_lines { Some(a) } else { None },
                None => None,
            };
            map.push(entry);
            assert(map@ =~= self.pin_maps.addr_view().take(i + 1).map_values(
                |e: Option<usize>|
                    match e {
                        Some(a) => if a < num_addr_lines { Some(a) } else { None },
                        None => None,
                    },
            ));
        }
        assert(self.pin_maps.addr_view().take(src.len() as int) =~= self.pin_maps.addr_view());
        map
    }

    /// Physical data pin (modulo 8) to data line.
    pub fn get_phys_pin_to_data_map(&self) -> (r: [usize; 8])
        ensures
            r@ == self.pin_maps.data_view(),
    {
        self.pin_maps.phys_pin_to_data_map
    }

    /// Port of the data lines.
    pub fn port_data(&self) -> (r: Port)
        ensures
            r == self.mcu.ports.data_port,
    {
        self.mcu.ports.data_port
    }

    /// Port of the address lines.
    pub fn port_addr(&self) -> (r: Port)
        ensures
            r == self.mcu.ports.addr_port,
    {
        self.mcu.ports.addr_port
    }

    /// Port of the chip select lines.
    pub fn port_cs(&self) -> (r: Port)
        ensures
            r == self.mcu.ports.cs_port,
    {
        self.mcu.ports.cs_port
    }

    /// Port of the image select lines.
    pub fn port_sel(&self) -> (r: Port)
        ensures
            r == self.mcu.ports.sel_port,
    {
        self.mcu.ports.sel_port
    }

    /// Port of the status LED.
    pub fn port_status(&self) -> (r: Port)
        ensures
            r == self.mcu.ports.status_port,
    {
        self.mcu.ports.status_port
    }

    /// Pin of the status LED.
    pub fn pin_status(&self) -> (r: u8)
        ensures
            r == self.mcu.pins.status,
    {
        self.mcu.pins.status
    }

    /// CS1 pin for a ROM type, 255 if none.
    pub fn pin_cs1(&self, rom_type: &RomType) -> (r: u8)
        ensures
            r == pin_or_unset(self.mcu.pins.cs1.spec_get(*rom_type)),
    {
        self.mcu.pins.cs1.get(rom_type).unwrap_or(255)
    }

    /// CS2 pin for a ROM type, 255 if none.
    pub fn pin_cs2(&self, rom_type: &RomType) -> (r: u8)
        ensures
            r == pin_or_unset(self.mcu.pins.cs2.spec_get(*rom_type)),
    {
        self.mcu.pins.cs2.get(rom_type).unwrap_or(255)
    }

    /// CS3 pin for a ROM type, 255 if none.
    pub fn pin_cs3(&self, rom_type: &RomType) -> (r: u8)
        ensures
            r == pin_or_unset(self.mcu.pins.cs3.spec_get(*rom_type)),
    {
        self.mcu.pins.cs3.get(rom_type).unwrap_or(255)
    }

    /// X1 pin, 255 if none.
    pub fn pin_x1(&self) -> (r: u8)
        ensures
            r == pin_or_unset(self.mcu.pins.x1),
    {
        self.mcu.pins.x1.unwrap_or(255)
    }

    /// X2 pin, 255 if none.
    pub fn pin_x2(&self) -> (r: u8)
        ensures
            r == pin_or_unset(self.mcu.pins.x2),
    {
        self.mcu.pins.x2.unwrap_or(255)
    }

    /// CE pin for a ROM type, 255 if none.
    pub fn pin_ce(&self, rom_type: &RomType) -> (r: u8)
        ensures
            r == pin_or_unset(self.mcu.pins.ce.spec_get(*rom_type)),
    {
        self.mcu.pins.ce.get(rom_type).unwrap_or(255)
    }

    /// OE pin for a ROM type, 255 if none.
    pub fn pin_oe(&self, rom_type: &RomType) -> (r: u8)
        ensures
            r == pin_or_unset(self.mcu.pins.oe.spec_get(*rom_type)),
    {
        self.mcu.pins.oe.get(rom_type).unwrap_or(255)
    }

    /// Image select pin number `sel`, 255 if there is none.
    pub fn pin_sel(&self, sel: usize) -> (r: u8)
        ensures
            r == (if sel < self.mcu.pins.sel@.len() { self.mcu.pins.sel@[sel as int] } else { 255 }),
    {
        if sel < self.mcu.pins.sel.len() {
            self.mcu.pins.sel[sel]
        } else {
            255
        }
    }

    /// Whether the image select jumpers pull up (1) or down (0).
    pub fn sel_jumper_pull(&self) -> (r: u8)
        ensures
            r == self.mcu.pins.sel_jumper_pull,
    {
        self.mcu.pins.sel_jumper_pull
    }

    /// Whether the X1/X2 jumpers pull up (1) or down (0).
    pub fn x_jumper_pull(&self) -> (r: u8)
        ensures
            r == self.mcu.pins.x_jumper_pull,
    {
        self.mcu.pins.x_jumper_pull
    }

    /// The pin selecting ROM `set_index` of a multi-ROM set.
    pub open spec fn spec_cs_pin_for_rom_in_set(self, rom_type: RomType, set_index: usize) -> u8 {
        if set_index == 0 {
            pin_or_unset(self.mcu.pins.cs1.spec_get(rom_type))
        } else if set_index == 1 {
            pin_or_unset(self.mcu.pins.x1)
        } else if set_index == 2 {
            pin_or_unset(self.mcu.pins.x2)
        } else {
            255
        }
    }

    /// The pin selecting ROM `set_index` of a multi-ROM set: CS1, X1, X2,
    /// then 255 (none).
    pub fn cs_pin_for_rom_in_set(&self, rom_type: &RomType, set_index: usize) -> (r: u8)
        ensures
            r == self.spec_cs_pin_for_rom_in_set(*rom_type, set_index),
    {
        match set_index {
            0 => self.pin_cs1(rom_type),
            1 => self.pin_x1(),
            2 => self.pin_x2(),
            _ => 255,
        }
    }

    /// X1/X2 pins that are set (below 255) are no higher than 15; every
    /// validated configuration has this.
    pub open spec fn x_pins_in_range(self) -> bool {
        (self.mcu.pins.x1 is Some && self.mcu.pins.x2 is Some && self.mcu.pins.x1.unwrap() < 255
            && self.mcu.pins.x2.unwrap() < 255) ==> (self.mcu.pins.x1.unwrap() <= 15
            && self.mcu.pins.x2.unwrap() <= 15)
    }

    pub open spec fn spec_supports_multi_rom_sets(self) -> bool {
        self.mcu.pins.x1 is Some && self.mcu.pins.x2 is Some && self.mcu.pins.x1.unwrap() < 255
            && self.mcu.pins.x2.unwrap() < 255
    }

    /// Whether the board can bank-switch ROMs (it has both X1 and X2).
    pub fn supports_banked_roms(&self) -> (r: bool)
        requires
            self.x_pins_in_range(),
        ensures
            r == self.spec_supports_multi_rom_sets(),
    {
        self.supports_multi_rom_sets()
    }

    /// Whether the board can serve multi-ROM sets (it has both X1 and X2).
    pub fn supports_multi_rom_sets(&self) -> (r: bool)
        requires
            self.x_pins_in_range(),
        ensures
            r == self.spec_supports_multi_rom_sets(),
    {
        if let Some(x1) = self.mcu.pins.x1 {
            if let Some(x2) = self.mcu.pins.x2 {
                if x1 < 255 && x2 < 255 {
                    return true;
                }
            }
        }
        false
    }

    pub open spec fn spec_has_usb(self) -> bool {
        self.mcu.usb matches Some(u) && u.present
    }

    /// Whether the board has USB.
    pub fn has_usb(&self) -> (r: bool)
        ensures
            r == self.spec_has_usb(),
    {
        match &self.mcu.usb {
            Some(usb) => usb.present,
            None => false,
        }
    }
}

/// A board that passes validation has X1 and X2, when set, on pins 0 to 15.
pub proof fn law_valid_config_x_pins(quantity: u8, mcu: Mcu)
    requires
        spec_validate_config(quantity, mcu) is None,
    ensures
        mcu.pins.x1 matches Some(x) ==> x <= 15,
        mcu.pins.x2 matches Some(x) ==> x <= 15,
{
    let f = mcu.family;
    if let Some(x) = mcu.pins.x1 {
        assert(f.spec_valid_x_pins(false).contains(x));
        let i = choose|i: int| 0 <= i < f.spec_valid_x_pins(false).len() && f.spec_valid_x_pins(false)[i] == x;
    }
    if let Some(x) = mcu.pins.x2 {
        assert(f.spec_valid_x_pins(true).contains(x));
        let i = choose|i: int| 0 <= i < f.spec_valid_x_pins(true).len() && f.spec_valid_x_pins(true)[i] == x;
    }
}

/// A configuration that passes validation, as every one `HwConfig::new`
/// returns does, has its X1 and X2 pins in range, so the multi-ROM checks
/// made on it never fail.
pub proof fn law_validated_config_x_pins_in_range(c: HwConfig)
    requires
        spec_validate_config(c.rom.pins.quantity, c.mcu) is None,
    ensures
        c.x_pins_in_range(),
{
    law_valid_config_x_pins(c.rom.pins.quantity, c.mcu);
}

/// A normalised name holds no `_`.
pub proof fn law_normalized_name_has_no_underscore(name: Seq<char>)
    ensures
        !spec_normalize_name(name).contains('_'),
{
    let r = spec_normalize_name(name);
    assert forall|i: int| 0 <= i < r.len() implies r[i] != '_' by {
        let c = spec_to_lowercase(name)[i];
        assert(r[i] == (if c == '_' { '-' } else { c }));
    }
}

/// Why the set of hardware configuration files was refused.
#[derive(Debug, Clone)]
pub enum ConfigListError {
    /// A file name that is not in normal form (lower case, `-` not `_`).
    NotNormalized { name: String },
    /// A second file of a name already seen; `first` is the earlier one's
    /// position among the names seen.
    Duplicate { name: String, first: usize },
    /// No configuration file at all.
    Empty,
}

/// The first of `seen` equal to `name`.
pub open spec fn first_equal(seen: Seq<String>, name: Seq<char>) -> Option<int> {
    if exists|i: int| 0 <= i < seen.len() && seen[i]@ == name {
        Some(
            choose|i: int|
                0 <= i < seen.len() && seen[i]@ == name && forall|j: int| 0 <= j < i ==> seen[j]@ != name,
        )
    } else {
        None
    }
}

/// Checks the name of one more configuration file against the names seen
/// before it: it must be in normal form and not seen yet.
pub fn check_config_file_name(name: &str, seen: &[String]) -> (r: Result<(), ConfigListError>)
    ensures
        spec_normalize_name(name@) != name@ ==> (r matches Err(ConfigListError::NotNormalized { name: n })
            && n@ == name@),
        spec_normalize_name(name@) == name@ ==> match first_equal(seen@, name@) {
            Some(i) => r matches Err(ConfigListError::Duplicate { name: n, first }) && n@ == name@
                && first == i,
            None => r is Ok,
        },
{
    let normalized = normalize_name(name);
    if !str_eq(normalized.as_str(), name) {
        return Err(ConfigListError::NotNormalized { name: String::from_str(name) });
    }
    let mut i: usize = 0;
    while i < seen.len()
        invariant
            i <= seen@.len(),
            spec_normalize_name(name@) == name@,
            forall|j: int| 0 <= j < i ==> seen@[j]@ != name@,
        decreases seen@.len() - i,
    {
        if str_eq(seen[i].as_str(), name) {
            proof {
                let k = first_equal(seen@, name@).unwrap();
                assert(!(k < i) && !(i < k));
            }
            return Err(ConfigListError::Duplicate { name: String::from_str(name), first: i });
        }
        i += 1;
    }
    Ok(())
}

/// The (name, description) pairs of the configurations found, sorted by
/// name; refused when there are none.
pub fn finish_config_list(configs: Vec<(String, String)>) -> (r: Result<
    Vec<(String, String)>,
    ConfigListError,
>)
    ensures
        configs@.len() == 0 ==> r matches Err(ConfigListError::Empty),
        configs@.len() > 0 ==> (r matches Ok(v) && lex_sorted(first_views(v@))
            && pair_views(v@).to_multiset() == pair_views(configs@).to_multiset()),
{
    if configs.len() == 0 {
        return Err(ConfigListError::Empty);
    }
    Ok(sort_by_first(configs))
}

} // verus!
