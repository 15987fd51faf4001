//! Presentation-state helpers: table sort order, theme names, and the
//! plain-text renderings of protocol values.
//!
//! Everything here is pure computation over the engine's types; the
//! terminal itself is the host application's concern.

use vstd::prelude::*;

use crate::codec::{PtpClockAccuracy, PtpClockClass};
use crate::identity::ClockIdentity;

verus! {

/// The column a host table is sorted by.
#[derive(Debug, Clone, PartialEq)]
pub enum SortColumn {
    ClockIdentity,
    IpAddress,
    State,
    Domain,
    Priority,
    ClockClass,
    SelectedTransmitter,
    MessageCount,
    LastSeen,
    Vendor,
}

pub open spec fn spec_next_column(c: SortColumn) -> SortColumn {
    match c {
        SortColumn::State => SortColumn::ClockIdentity,
        SortColumn::ClockIdentity => SortColumn::IpAddress,
        SortColumn::IpAddress => SortColumn::Vendor,
        SortColumn::Vendor => SortColumn::Domain,
        SortColumn::Domain => SortColumn::Priority,
        SortColumn::Priority => SortColumn::ClockClass,
        SortColumn::ClockClass => SortColumn::SelectedTransmitter,
        SortColumn::SelectedTransmitter => SortColumn::MessageCount,
        SortColumn::MessageCount => SortColumn::LastSeen,
        SortColumn::LastSeen => SortColumn::State,
    }
}

pub open spec fn spec_previous_column(c: SortColumn) -> SortColumn {
    match c {
        SortColumn::LastSeen => SortColumn::MessageCount,
        SortColumn::MessageCount => SortColumn::SelectedTransmitter,
        SortColumn::SelectedTransmitter => SortColumn::ClockClass,
        SortColumn::ClockClass => SortColumn::Priority,
        SortColumn::Priority => SortColumn::Domain,
        SortColumn::Domain => SortColumn::Vendor,
        SortColumn::Vendor => SortColumn::IpAddress,
        SortColumn::IpAddress => SortColumn::ClockIdentity,
        SortColumn::ClockIdentity => SortColumn::State,
        SortColumn::State => SortColumn::LastSeen,
    }
}

impl SortColumn {
    pub fn next(&self) -> (r: SortColumn)
        ensures
            r == spec_next_column(*self),
    {
        match self {
            SortColumn::State => SortColumn::ClockIdentity,
            SortColumn::ClockIdentity => SortColumn::IpAddress,
            SortColumn::IpAddress => SortColumn::Vendor,
            SortColumn::Vendor => SortColumn::Domain,
            SortColumn::Domain => SortColumn::Priority,
            SortColumn::Priority => SortColumn::ClockClass,
            SortColumn::ClockClass => SortColumn::SelectedTransmitter,
            SortColumn::SelectedTransmitter => SortColumn::MessageCount,
            SortColumn::MessageCount => SortColumn::LastSeen,
            SortColumn::LastSeen => SortColumn::State,
        }
    }

    pub fn previous(&self) -> (r: SortColumn)
        ensures
            r == spec_previous_column(*self),
    {
        match self {
            SortColumn::LastSeen => SortColumn::MessageCount,
            SortColumn::MessageCount => SortColumn::SelectedTransmitter,
            SortColumn::SelectedTransmitter => SortColumn::ClockClass,
            SortColumn::ClockClass => SortColumn::Priority,
            SortColumn::Priority => SortColumn::Domain,
            SortColumn::Domain => SortColumn::Vendor,
            SortColumn::Vendor => SortColumn::IpAddress,
            SortColumn::IpAddress => SortColumn::ClockIdentity,
            SortColumn::ClockIdentity => SortColumn::State,
            SortColumn::State => SortColumn::LastSeen,
        }
    }

    pub fn display_name(&self) -> (r: &'static str)
        ensures
            *self == SortColumn::State ==> r@ == "State"@,
            *self == SortColumn::ClockIdentity ==> r@ == "Clock Identity"@,
            *self == SortColumn::IpAddress ==> r@ == "IP Address"@,
            *self == SortColumn::Vendor ==> r@ == "Vendor"@,
            *self == SortColumn::Domain ==> r@ == "Domain"@,
            *self == SortColumn::Priority ==> r@ == "Priority"@,
            *self == SortColumn::ClockClass ==> r@ == "Clock Class"@,
            *self == SortColumn::SelectedTransmitter ==> r@ == "Selected Transmitter"@,
            *self == SortColumn::MessageCount ==> r@ == "Msg Count"@,
            *self == SortColumn::LastSeen ==> r@ == "Last Seen"@,
    {
        match self {
            SortColumn::State => "State",
            SortColumn::ClockIdentity => "Clock Identity",
            SortColumn::IpAddress => "IP Address",
            SortColumn::Vendor => "Vendor",
            SortColumn::Domain => "Domain",
            SortColumn::Priority => "Priority",
            SortColumn::ClockClass => "Clock Class",
            SortColumn::SelectedTransmitter => "Selected Transmitter",
            SortColumn::MessageCount => "Msg Count",
            SortColumn::LastSeen => "Last Seen",
        }
    }
}

/// Stepping forward and stepping back through the sort columns are
/// inverse to each other, so the cycle visits every column.
pub proof fn lemma_sort_column_cycle(c: SortColumn)
    ensures
        spec_previous_column(spec_next_column(c)) == c,
        spec_next_column(spec_previous_column(c)) == c,
{
}

/// The available color themes.
#[derive(Debug, Clone, Copy, PartialEq)]
pub enum ThemeName {
    Default,
    Monokai,
    Matrix,
}

/// The character code of `c` with an ASCII capital folded to lower
/// case.
pub open spec fn spec_lower_code(c: char) -> int {
    if 65 <= c as int <= 90 {
        c as int + 32
    } else {
        c as int
    }
}

/// `s` reads as the (lower-case ASCII) keyword `t`, letter for letter,
/// ignoring ASCII case.
pub open spec fn spec_matches_keyword(s: Seq<char>, t: Seq<char>) -> bool {
    s.len() == t.len() && forall|i: int|
        0 <= i < s.len() ==> spec_lower_code(s[i]) == (#[trigger] t[i]) as int
}

/// ASCII-case-insensitive comparison of `s` against a lower-case
/// keyword.
fn str_matches_keyword(s: &str, t: &str) -> (r: bool)
    ensures
        r == spec_matches_keyword(s@, t@),
{
    let n = s.unicode_len();
    let m = t.unicode_len();
    if n != m {
        return false;
    }
    let mut i: usize = 0;
    while i < n
        invariant
            n == s@.len(),
            n == t@.len(),
            i <= n,
            forall|j: int| 0 <= j < i ==> spec_lower_code(s@[j]) == (#[trigger] t@[j]) as int,
        decreases n - i,
    {
        let c = s.get_char(i);
        let d = t.get_char(i);
        let code: u32 = c as u32;
        let folded: u32 = if 65 <= code && code <= 90 {
            code + 32
        } else {
            code
        };
        if folded != d as u32 {
            return false;
        }
        i = i + 1;
    }
    true
}

/// Exact character-for-character string comparison.
pub fn str_eq_chars(s: &str, t: &str) -> (r: bool)
    ensures
        r == (s@ == t@),
{
    let n = s.unicode_len();
    let m = t.unicode_len();
    if n != m {
        return false;
    }
    let mut i: usize = 0;
    while i < n
        invariant
            n == s@.len(),
            n == t@.len(),
            i <= n,
            forall|j: int| 0 <= j < i ==> s@[j] == t@[j],
        decreases n - i,
    {
        if s.get_char(i) != t.get_char(i) {
            return false;
        }
        i = i + 1;
    }
    proof {
        assert(s@ =~= t@);
    }
    true
}

impl ThemeName {
    /// The theme named `s`, matched ignoring ASCII case.
    pub fn from_str(s: &str) -> (r: Option<ThemeName>)
        ensures
            r == (if spec_matches_keyword(s@, "default"@) {
                Some(ThemeName::Default)
            } else if spec_matches_keyword(s@, "monokai"@) {
                Some(ThemeName::Monokai)
            } else if spec_matches_keyword(s@, "matrix"@) {
                Some(ThemeName::Matrix)
            } else {
                None
            }),
    {
        if str_matches_keyword(s, "default") {
            Some(ThemeName::Default)
        } else if str_matches_keyword(s, "monokai") {
            Some(ThemeName::Monokai)
        } else if str_matches_keyword(s, "matrix") {
            Some(ThemeName::Matrix)
        } else {
            None
        }
    }

    pub fn as_str(&self) -> (r: &'static str)
        ensures
            *self == ThemeName::Default ==> r@ == "default"@,
            *self == ThemeName::Monokai ==> r@ == "monokai"@,
            *self == ThemeName::Matrix ==> r@ == "matrix"@,
    {
        match self {
            ThemeName::Default => "default",
            ThemeName::Monokai => "monokai",
            ThemeName::Matrix => "matrix",
        }
    }

    /// Every theme, in the order they are offered.
    pub fn all_themes() -> (r: Vec<ThemeName>)
        ensures
            r@ == seq![ThemeName::Default, ThemeName::Monokai, ThemeName::Matrix],
    {
        let mut r: Vec<ThemeName> = Vec::new();
        r.push(ThemeName::Default);
        r.push(ThemeName::Monokai);
        r.push(ThemeName::Matrix);
        proof {
            assert(r@ =~= seq![ThemeName::Default, ThemeName::Monokai, ThemeName::Matrix]);
        }
        r
    }
}

/// The comma-separated list of every theme name.
pub fn theme_list_string() -> (r: String)
    ensures
        r@ == "default"@ + ", "@ + "monokai"@ + ", "@ + "matrix"@,
{
    let themes = ThemeName::all_themes();
    let mut r = String::new();
    let mut i: usize = 0;
    while i < themes.len()
        invariant
            themes@ == seq![ThemeName::Default, ThemeName::Monokai, ThemeName::Matrix],
            i <= 3,
            i == 0 ==> r@ == Seq::<char>::empty(),
            i == 1 ==> r@ == Seq::<char>::empty() + "default"@,
            i == 2 ==> r@ == Seq::<char>::empty() + "default"@ + ", "@ + "monokai"@,
            i == 3 ==> r@ == Seq::<char>::empty() + "default"@ + ", "@ + "monokai"@ + ", "@
                + "matrix"@,
        decreases themes@.len() - i,
    {
        if i > 0 {
            r.append(", ");
        }
        r.append(themes[i].as_str());
        i = i + 1;
    }
    proof {
        assert(r@ =~= "default"@ + ", "@ + "monokai"@ + ", "@ + "matrix"@);
    }
    r
}

/// The help line naming the available themes.
pub fn theme_help_text() -> (r: String)
    ensures
        r@ == "Color theme to use (available: "@ + ("default"@ + ", "@ + "monokai"@ + ", "@
            + "matrix"@) + ")"@,
{
    let mut r = String::new();
    r.append("Color theme to use (available: ");
    let list = theme_list_string();
    r.append(list.as_str());
    r.append(")");
    proof {
        assert(r@ =~= "Color theme to use (available: "@ + ("default"@ + ", "@ + "monokai"@
            + ", "@ + "matrix"@) + ")"@);
    }
    r
}

/// Accepts exactly the known theme names (case-sensitive, as typed on
/// the command line); any other text earns a message naming the
/// alternatives.
pub fn parse_theme(s: &str) -> (r: Result<String, String>)
    ensures
        r is Ok <==> (s@ == "default"@ || s@ == "monokai"@ || s@ == "matrix"@),
        r matches Ok(v) ==> v@ == s@,
        r matches Err(e) ==> e@ == "Invalid theme '"@ + s@ + "'. Available themes: "@ + (
        "default"@ + ", "@ + "monokai"@ + ", "@ + "matrix"@),
{
    let themes = ThemeName::all_themes();
    let mut i: usize = 0;
    while i < themes.len()
        invariant
            themes@ == seq![ThemeName::Default, ThemeName::Monokai, ThemeName::Matrix],
            i <= 3,
            i >= 1 ==> s@ != "default"@,
            i >= 2 ==> s@ != "monokai"@,
            i >= 3 ==> s@ != "matrix"@,
        decreases themes@.len() - i,
    {
        if str_eq_chars(themes[i].as_str(), s) {
            return Ok(s.to_owned());
        }
        i = i + 1;
    }
    let mut e = String::new();
    e.append("Invalid theme '");
    e.append(s);
    e.append("'. Available themes: ");
    let list = theme_list_string();
    e.append(list.as_str());
    proof {
        assert(e@ =~= "Invalid theme '"@ + s@ + "'. Available themes: "@ + ("default"@ + ", "@
            + "monokai"@ + ", "@ + "matrix"@));
    }
    Err(e)
}

/// The decimal digit `d` as a character.
pub open spec fn spec_digit_char(d: int) -> char {
    if d == 0 {
        '0'
    } else if d == 1 {
        '1'
    } else if d == 2 {
        '2'
    } else if d == 3 {
        '3'
    } else if d == 4 {
        '4'
    } else if d == 5 {
        '5'
    } else if d == 6 {
        '6'
    } else if d == 7 {
        '7'
    } else if d == 8 {
        '8'
    } else {
        '9'
    }
}

/// The decimal rendering of a byte value, without leading zeros.
pub open spec fn spec_u8_decimal(n: int) -> Seq<char> {
    if n >= 100 {
        seq![
            spec_digit_char(n / 100),
            spec_digit_char((n / 10) % 10),
            spec_digit_char(n % 10),
        ]
    } else if n >= 10 {
        seq![spec_digit_char(n / 10), spec_digit_char(n % 10)]
    } else {
        seq![spec_digit_char(n)]
    }
}

fn digit_str(d: u8) -> (r: &'static str)
    requires
        d < 10,
    ensures
        r@ =~= seq![spec_digit_char(d as int)],
{
    proof {
        reveal_strlit("0");
        reveal_strlit("1");
        reveal_strlit("2");
        reveal_strlit("3");
        reveal_strlit("4");
        reveal_strlit("5");
        reveal_strlit("6");
        reveal_strlit("7");
        reveal_strlit("8");
        reveal_strlit("9");
    }
    if d == 0 {
        "0"
    } else if d == 1 {
        "1"
    } else if d == 2 {
        "2"
    } else if d == 3 {
        "3"
    } else if d == 4 {
        "4"
    } else if d == 5 {
        "5"
    } else if d == 6 {
        "6"
    } else if d == 7 {
        "7"
    } else if d == 8 {
        "8"
    } else {
        "9"
    }
}

/// The decimal rendering of `n`.
pub fn u8_decimal_string(n: u8) -> (r: String)
    ensures
        r@ == spec_u8_decimal(n as int),
{
    let mut r = String::new();
    if n >= 100 {
        r.append(digit_str(n / 100));
        r.append(digit_str((n / 10) % 10));
        r.append(digit_str(n % 10));
    } else if n >= 10 {
        r.append(digit_str(n / 10));
        r.append(digit_str(n % 10));
    } else {
        r.append(digit_str(n));
    }
    proof {
        assert(r@ =~= spec_u8_decimal(n as int));
    }
    r
}

/// Resolve a clock class to display text: its decimal value, "N/A"
/// where none was announced.
pub fn format_clock_class(cc: Option<PtpClockClass>) -> (r: String)
    ensures
        cc is None ==> r@ == "N/A"@,
        cc matches Some(c) ==> r@ == spec_u8_decimal(c.class as int),
{
    match cc {
        None => "N/A".to_owned(),
        Some(class) => u8_decimal_string(class.class),
    }
}

/// Resolve a clock accuracy to display text: its decimal value, "N/A"
/// where none was announced.
pub fn format_clock_accuracy(ca: Option<PtpClockAccuracy>) -> (r: String)
    ensures
        ca is None ==> r@ == "N/A"@,
        ca matches Some(a) ==> r@ == spec_u8_decimal(a.accuracy as int),
{
    match ca {
        None => "N/A".to_owned(),
        Some(accuracy) => u8_decimal_string(accuracy.accuracy),
    }
}

/// The hexadecimal digit `d` as a (lower-case) character.
pub open spec fn spec_hex_char(d: int) -> char {
    if d < 10 {
        spec_digit_char(d)
    } else if d == 10 {
        'a'
    } else if d == 11 {
        'b'
    } else if d == 12 {
        'c'
    } else if d == 13 {
        'd'
    } else if d == 14 {
        'e'
    } else {
        'f'
    }
}

/// A byte as two hexadecimal digits.
pub open spec fn spec_byte_hex(b: int) -> Seq<char> {
    seq![spec_hex_char(b / 16), spec_hex_char(b % 16)]
}

/// An 8-byte clock identity as colon-separated hexadecimal.
pub open spec fn spec_identity_hex(s: Seq<u8>) -> Seq<char> {
    spec_byte_hex(s[0] as int) + seq![':'] + spec_byte_hex(s[1] as int) + seq![':']
        + spec_byte_hex(s[2] as int) + seq![':'] + spec_byte_hex(s[3] as int) + seq![':']
        + spec_byte_hex(s[4] as int) + seq![':'] + spec_byte_hex(s[5] as int) + seq![':']
        + spec_byte_hex(s[6] as int) + seq![':'] + spec_byte_hex(s[7] as int)
}

fn hex_digit_str(d: u8) -> (r: &'static str)
    requires
        d < 16,
    ensures
        r@ =~= seq![spec_hex_char(d as int)],
{
    if d < 10 {
        digit_str(d)
    } else {
        proof {
            reveal_strlit("a");
            reveal_strlit("b");
            reveal_strlit("c");
            reveal_strlit("d");
            reveal_strlit("e");
            reveal_strlit("f");
        }
        if d == 10 {
            "a"
        } else if d == 11 {
            "b"
        } else if d == 12 {
            "c"
        } else if d == 13 {
            "d"
        } else if d == 14 {
            "e"
        } else {
            "f"
        }
    }
}

fn append_byte_hex(out: &mut String, b: u8)
    ensures
        final(out)@ == old(out)@ + spec_byte_hex(b as int),
{
    out.append(hex_digit_str(b / 16));
    out.append(hex_digit_str(b % 16));
    proof {
        assert(final(out)@ =~= old(out)@ + spec_byte_hex(b as int));
    }
}

/// A clock identity as colon-separated hexadecimal, for display.
pub fn format_clock_identity(id: &ClockIdentity) -> (r: String)
    ensures
        r@ == spec_identity_hex(id.clock_id@),
{
    let mut r = String::new();
    append_byte_hex(&mut r, id.clock_id[0]);
    r.append(":");
    append_byte_hex(&mut r, id.clock_id[1]);
    r.append(":");
    append_byte_hex(&mut r, id.clock_id[2]);
    r.append(":");
    append_byte_hex(&mut r, id.clock_id[3]);
    r.append(":");
    append_byte_hex(&mut r, id.clock_id[4]);
    r.append(":");
    append_byte_hex(&mut r, id.clock_id[5]);
    r.append(":");
    append_byte_hex(&mut r, id.clock_id[6]);
    r.append(":");
    append_byte_hex(&mut r, id.clock_id[7]);
    proof {
        reveal_strlit(":");
        assert(":"@ =~= seq![':']);
        assert(r@ =~= spec_identity_hex(id.clock_id@));
    }
    r
}

/// `p` is a (character) prefix of `s`.
pub open spec fn spec_is_prefix(s: Seq<char>, p: Seq<char>) -> bool {
    p.len() <= s.len() && s.take(p.len() as int) == p
}

/// Whether `s` starts with `p`.
fn starts_with_chars(s: &str, p: &str) -> (r: bool)
    ensures
        r == spec_is_prefix(s@, p@),
{
    let n = s.unicode_len();
    let m = p.unicode_len();
    if m > n {
        return false;
    }
    let mut i: usize = 0;
    while i < m
        invariant
            n == s@.len(),
            m == p@.len(),
            m <= n,
            i <= m,
            forall|j: int| 0 <= j < i ==> s@[j] == p@[j],
        decreases m - i,
    {
        if s.get_char(i) != p.get_char(i) {
            proof {
                assert(s@.take(m as int)[i as int] != p@[i as int]);
            }
            return false;
        }
        i = i + 1;
    }
    proof {
        assert(s@.take(m as int) =~= p@);
    }
    true
}

/// A capture interface is worth monitoring unless its name carries one
/// of the common virtual-interface prefixes.
pub fn is_suitable_interface_name(interface_name: &str) -> (r: bool)
    ensures
        r == !(spec_is_prefix(interface_name@, "veth"@) || spec_is_prefix(
            interface_name@,
            "docker"@,
        ) || spec_is_prefix(interface_name@, "br-"@) || spec_is_prefix(interface_name@, "virbr"@)
            || spec_is_prefix(interface_name@, "vmnet"@) || spec_is_prefix(
            interface_name@,
            "tun"@,
        ) || spec_is_prefix(interface_name@, "tap"@) || spec_is_prefix(interface_name@, "wg"@)
            || spec_is_prefix(interface_name@, "dummy"@) || spec_is_prefix(
            interface_name@,
            "bond"@,
        ) || spec_is_prefix(interface_name@, "team"@) || spec_is_prefix(
            interface_name@,
            "macvlan"@,
        ) || spec_is_prefix(interface_name@, "vlan"@) || spec_is_prefix(interface_name@, "lo"@)
            || spec_is_prefix(interface_name@, "flannel"@) || spec_is_prefix(
            interface_name@,
            "cni0"@,
        ) || spec_is_prefix(interface_name@, "wl"@) || spec_is_prefix(interface_name@, "wlan"@)
            || spec_is_prefix(interface_name@, "ww"@) || spec_is_prefix(
            interface_name@,
            "idrac"@,
        )),
{
    if starts_with_chars(interface_name, "veth") {
        return false;
    }
    if starts_with_chars(interface_name, "docker") {
        return false;
    }
    if starts_with_chars(interface_name, "br-") {
        return false;
    }
    if starts_with_chars(interface_name, "virbr") {
        return false;
    }
    if starts_with_chars(interface_name, "vmnet") {
        return false;
    }
    if starts_with_chars(interface_name, "tun") {
        return false;
    }
    if starts_with_chars(interface_name, "tap") {
        return false;
    }
    if starts_with_chars(interface_name, "wg") {
        return false;
    }
    if starts_with_chars(interface_name, "dummy") {
        return false;
    }
    if starts_with_chars(interface_name, "bond") {
        return false;
    }
    if starts_with_chars(interface_name, "team") {
        return false;
    }
    if starts_with_chars(interface_name, "macvlan") {
        return false;
    }
    if starts_with_chars(interface_name, "vlan") {
        return false;
    }
    if starts_with_chars(interface_name, "lo") {
        return false;
    }
    if starts_with_chars(interface_name, "flannel") {
        return false;
    }
    if starts_with_chars(interface_name, "cni0") {
        return false;
    }
    if starts_with_chars(interface_name, "wl") {
        return false;
    }
    if starts_with_chars(interface_name, "wlan") {
        return false;
    }
    if starts_with_chars(interface_name, "ww") {
        return false;
    }
    if starts_with_chars(interface_name, "idrac") {
        return false;
    }
    true
}

} // verus!
