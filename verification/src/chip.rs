use vstd::prelude::*;

verus! {

/// A JEDEC JEP106 manufacturer code: a continuation count and an
/// identity byte, as found in a ROM table's peripheral identification.
#[derive(Clone, Copy, Debug, PartialEq, Eq, Structural)]
pub struct JedecManufacturer {
    /// The continuation code: which bank the identity is looked up in.
    pub cc: u8,
    /// The identity code within that bank.
    pub id: u8,
}

/// What the JEDEC list names the manufacturer `(cc, id)`, if anything; a
/// function of the two bytes alone.
pub uninterp spec fn jep106_manufacturer(cc: u8, id: u8) -> Option<Seq<char>>;

/// Relies on `jep106::JEP106Code::get_raw`: the JEDEC manufacturer name
/// listed for a continuation/identity pair, or nothing for an unknown
/// pair; the result depends on the two bytes alone.
#[verifier::external_body]
fn manufacturer_name_raw(cc: u8, id: u8) -> (r: Option<Vec<char>>)
    ensures
        r is Some <==> jep106_manufacturer(cc, id) is Some,
        r matches Some(s) ==> jep106_manufacturer(cc, id) == Some(s@),
{
    jep106::JEP106Code::get_raw(cc, id).map(|s| s.chars().collect())
}

/// Information about the chip a ROM table identified: who made it and
/// which part it is. The part number is unique only as far as the
/// manufacturer respects the architecture; some assign one number to a
/// whole family.
#[derive(Clone, Copy, Debug, PartialEq, Eq, Structural)]
pub struct ArmChipInfo {
    /// The JEP106 code of the chip's manufacturer.
    pub manufacturer: JedecManufacturer,
    /// The part number the ROM table carries.
    pub part: u16,
}

impl ArmChipInfo {
    /// The manufacturer's name from the JEDEC list, if the code is known.
    pub fn manufacturer_name(&self) -> (r: Option<String>)
        ensures
            r is Some <==> jep106_manufacturer(self.manufacturer.cc, self.manufacturer.id)
                is Some,
            r matches Some(s) ==> jep106_manufacturer(
                self.manufacturer.cc,
                self.manufacturer.id,
            ) == Some(s@),
    {
        match manufacturer_name_raw(self.manufacturer.cc, self.manufacturer.id) {
            Some(chars) => Some(string_from_chars(chars)),
            None => None,
        }
    }

    /// What this chip prints as: the manufacturer's name where the JEDEC
    /// list knows the code, a spelled-out unknown-code form otherwise,
    /// followed by the part number in hex.
    pub open spec fn spec_display(self) -> Seq<char> {
        match jep106_manufacturer(self.manufacturer.cc, self.manufacturer.id) {
            Some(name) => name + " 0x"@ + spec_hex_word(self.part),
            None => "<unknown manufacturer (cc="@
                + spec_hex_byte_padded(self.manufacturer.cc) + ", id="@
                + spec_hex_byte_padded(self.manufacturer.id) + ")>"@ + " 0x"@
                + spec_hex_word(self.part),
        }
    }

    /// Renders the chip identity for people: the manufacturer's name (or
    /// an unknown-code form naming the raw bytes) and the part number.
    pub fn display_string(&self) -> (r: String)
        ensures
            r@ == self.spec_display(),
    {
        let mut out: Vec<char> = Vec::new();
        match manufacturer_name_raw(self.manufacturer.cc, self.manufacturer.id) {
            Some(name) => {
                let mut i: usize = 0;
                while i < name.len()
                    invariant
                        i <= name.len(),
                        out@ == name@.subrange(0, i as int),
                    decreases name.len() - i,
                {
                    out.push(name[i]);
                    proof {
                        assert(out@ =~= name@.subrange(0, i as int + 1));
                    }
                    i += 1;
                }
                proof {
                    assert(out@ =~= name@);
                }
            }
            None => {
                out.push('<');
                out.push('u');
                out.push('n');
                out.push('k');
                out.push('n');
                out.push('o');
                out.push('w');
                out.push('n');
                out.push(' ');
                out.push('m');
                out.push('a');
                out.push('n');
                out.push('u');
                out.push('f');
                out.push('a');
                out.push('c');
                out.push('t');
                out.push('u');
                out.push('r');
                out.push('e');
                out.push('r');
                out.push(' ');
                out.push('(');
                out.push('c');
                out.push('c');
                out.push('=');
                push_hex_byte_padded(&mut out, self.manufacturer.cc);
                out.push(',');
                out.push(' ');
                out.push('i');
                out.push('d');
                out.push('=');
                push_hex_byte_padded(&mut out, self.manufacturer.id);
                out.push(')');
                out.push('>');
                proof {
                    reveal_strlit("<unknown manufacturer (cc=");
                    reveal_strlit(", id=");
                    reveal_strlit(")>");
                    assert(out@ =~= "<unknown manufacturer (cc="@
                        + spec_hex_byte_padded(self.manufacturer.cc) + ", id="@
                        + spec_hex_byte_padded(self.manufacturer.id) + ")>"@);
                }
            }
        }
        out.push(' ');
        out.push('0');
        out.push('x');
        let p = self.part;
        proof {
            assert((p >> 12) & 0xF < 16 && (p >> 8) & 0xF < 16 && (p >> 4) & 0xF < 16 && p
                & 0xF < 16) by (bit_vector);
        }
        out.push(hex_digit(((p >> 12) & 0xF) as u8));
        out.push(hex_digit(((p >> 8) & 0xF) as u8));
        out.push(hex_digit(((p >> 4) & 0xF) as u8));
        out.push(hex_digit((p & 0xF) as u8));
        proof {
            reveal_strlit(" 0x");
            assert(out@ =~= self.spec_display());
        }
        string_from_chars(out)
    }
}

/// Appends a byte in the two-column space-padded hex form.
fn push_hex_byte_padded(out: &mut Vec<char>, v: u8)
    ensures
        final(out)@ == old(out)@ + spec_hex_byte_padded(v),
{
    if v < 16 {
        out.push(' ');
        out.push(hex_digit(v));
    } else {
        proof {
            assert(v >> 4 < 16 && v & 0xF < 16) by (bit_vector);
        }
        out.push(hex_digit(v >> 4));
        out.push(hex_digit(v & 0xF));
    }
    proof {
        assert(out@ =~= old(out)@ + spec_hex_byte_padded(v));
    }
}

/// The lower-case hex digit for a value below 16.
pub open spec fn spec_hex_digit(n: u8) -> char
    recommends
        n < 16,
{
    if n < 10 {
        (48 + n) as char
    } else {
        (87 + n) as char
    }
}

/// The lower-case hex digit for a value below 16.
pub fn hex_digit(n: u8) -> (r: char)
    requires
        n < 16,
    ensures
        r == spec_hex_digit(n),
{
    if n < 10 {
        (48 + n) as char
    } else {
        (87 + n) as char
    }
}

/// A byte in lower-case hex, two columns wide, space-padded on the left.
pub open spec fn spec_hex_byte_padded(v: u8) -> Seq<char> {
    if v < 16 {
        seq![' ', spec_hex_digit(v)]
    } else {
        seq![spec_hex_digit(v >> 4), spec_hex_digit(v & 0xF)]
    }
}

/// A 16-bit value as four lower-case hex digits, zero-filled.
pub open spec fn spec_hex_word(v: u16) -> Seq<char> {
    seq![
        spec_hex_digit(((v >> 12) & 0xF) as u8),
        spec_hex_digit(((v >> 8) & 0xF) as u8),
        spec_hex_digit(((v >> 4) & 0xF) as u8),
        spec_hex_digit((v & 0xF) as u8),
    ]
}

/// Relies on `String::from_iter`: the string holding exactly the given
/// characters, in order.
#[verifier::external_body]
fn string_from_chars(chars: Vec<char>) -> (r: String)
    ensures
        r@ == chars@,
{
    core::iter::FromIterator::from_iter(chars)
}

/// What chip identification needs to know about the component parsed at
/// one AP's base address.
#[derive(Clone, Copy, Debug, PartialEq, Eq, Structural)]
pub struct RomTableComponentInfo {
    /// Whether the component is a Class-1 ROM table.
    pub is_class1_rom_table: bool,
    /// The JEP106 code its peripheral identification carries, if any.
    pub manufacturer: Option<JedecManufacturer>,
    /// The part number its peripheral identification carries.
    pub part: u16,
}

impl RomTableComponentInfo {
    /// Whether this component identifies the chip.
    pub open spec fn spec_identifies(self) -> bool {
        self.is_class1_rom_table && self.manufacturer is Some
    }

    /// The chip information a component that identifies the chip yields.
    pub open spec fn spec_chip_info(self) -> ArmChipInfo
        recommends
            self.spec_identifies(),
    {
        ArmChipInfo {
            manufacturer: match self.manufacturer {
                Some(m) => m,
                None => JedecManufacturer { cc: 0, id: 0 },
            },
            part: self.part,
        }
    }
}

/// The chip information of the first component in the sequence that is a
/// Class-1 ROM table carrying a JEP106 code, or nothing.
pub open spec fn spec_first_chip_info(s: Seq<RomTableComponentInfo>) -> Option<ArmChipInfo>
    decreases s.len(),
{
    if s.len() == 0 {
        None
    } else if s[0].spec_identifies() {
        Some(s[0].spec_chip_info())
    } else {
        spec_first_chip_info(s.drop_first())
    }
}

/// Picks the chip identity out of the components found at a DP's access
/// ports, visited in order: the first Class-1 ROM table whose peripheral
/// identification carries a JEP106 code decides; every other component —
/// including one that failed to parse and was reported as no component —
/// is passed over in silence.
pub fn chip_info_from_components(
    components: &Vec<RomTableComponentInfo>,
) -> (r: Option<ArmChipInfo>)
    ensures
        r == spec_first_chip_info(components@),
{
    let mut i: usize = 0;
    proof {
        assert(components@.skip(0) =~= components@);
    }
    while i < components.len()
        invariant
            i <= components.len(),
            spec_first_chip_info(components@.skip(i as int)) == spec_first_chip_info(
                components@,
            ),
            forall|k: int| 0 <= k < i ==> !(#[trigger] components@[k]).spec_identifies(),
        decreases components.len() - i,
    {
        let c = components[i];
        proof {
            assert(components@.skip(i as int)[0] == components@[i as int]);
            assert(components@.skip(i as int).drop_first() =~= components@.skip(i as int + 1));
        }
        if c.is_class1_rom_table {
            match c.manufacturer {
                Some(m) => {
                    return Some(ArmChipInfo { manufacturer: m, part: c.part });
                }
                None => {}
            }
        }
        i += 1;
    }
    proof {
        assert(components@.skip(i as int) =~= Seq::<RomTableComponentInfo>::empty());
    }
    None
}

} // verus!
