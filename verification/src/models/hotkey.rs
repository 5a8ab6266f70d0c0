//! Hotkeys: a set of modifier keys held together with one physical key.

use crate::os::interface::ModifierFormatInterface;
use crate::os::macos::modifiers::ModifierFormat;
use crate::text::{contains, occurs_in, strip_prefix, without_prefix};
use vstd::prelude::*;
use vstd::string::StringExecFns;

verus! {

/// The physical key enumeration of `keyboard-types`, as `global-hotkey` hands it on.
#[verifier::external_type_specification]
#[verifier::external_body]
pub struct ExPhysicalKey(global_hotkey::hotkey::Code);

/// Bit of the Alt (Option) modifier.
pub const ALT_BIT: u32 = 0x1;

/// Bit of the Control modifier.
pub const CONTROL_BIT: u32 = 0x8;

/// Bit of the Meta modifier: the platform's primary modifier (Command, Windows).
pub const META_BIT: u32 = 0x40;

/// Bit of the Shift modifier.
pub const SHIFT_BIT: u32 = 0x200;

/// Bit of Super, the legacy name of the platform's primary modifier.
pub const SUPER_BIT: u32 = 0x2000;

/// Every bit that a `Modifiers` value may hold.
pub const KNOWN_BITS: u32 = 0x2249;

/// The largest number that a physical key has.
pub const MAX_KEY_NUMBER: u32 = 0xffff;

/// The modifier bits with Super, the legacy name, rewritten to Meta.
pub open spec fn normalized(bits: u32) -> u32 {
    if bits & SUPER_BIT != 0 {
        (bits & !SUPER_BIT) | META_BIT
    } else {
        bits
    }
}

/// Whether every bit of `wanted` is set in `bits`.
pub open spec fn holds_bits(bits: u32, wanted: u32) -> bool {
    bits & wanted == wanted
}

/// The id of the hotkey made of these modifier bits and this key number:
/// the bits in the upper half, the key in the lower.
pub open spec fn hotkey_id(mods: u32, key: u32) -> u32 {
    (mods << 16) | key
}

/// The name that `keyboard-types` prints for the physical key with this number,
/// such as `KeyF`, `Digit1` or `ArrowUp`.
pub uninterp spec fn code_name(number: u32) -> Seq<char>;

/// The label of the key with this name: the name without a leading `Key`,
/// `Digit` or `Arrow`.
pub open spec fn key_label(name: Seq<char>) -> Seq<char> {
    match without_prefix(name, "Key"@) {
        Some(rest) => rest,
        None => match without_prefix(name, "Digit"@) {
            Some(rest) => rest,
            None => match without_prefix(name, "Arrow"@) {
                Some(rest) => rest,
                None => name,
            },
        },
    }
}

/// The labels of the modifiers in `mods`, in the order of `labels`.
pub open spec fn modifier_text(labels: Seq<(u32, Seq<char>)>, mods: u32) -> Seq<char>
    decreases labels.len(),
{
    if labels.len() == 0 {
        Seq::empty()
    } else {
        modifier_text(labels.drop_last(), mods) + if holds_bits(mods, labels.last().0) {
            labels.last().1
        } else {
            Seq::empty()
        }
    }
}

/// A hotkey in words: the labels of its modifiers, then the label of its key.
pub open spec fn hotkey_text(labels: Seq<(u32, Seq<char>)>, mods: u32, key_name: Seq<char>) -> Seq<
    char,
> {
    modifier_text(labels, mods) + key_label(key_name)
}

/// Whether a key of this name is itself a modifier key.
pub open spec fn names_modifier(name: Seq<char>) -> bool {
    occurs_in(name, "Control"@) || occurs_in(name, "Meta"@) || occurs_in(name, "Alt"@)
        || occurs_in(name, "Shift"@)
}

/// The number of the physical key that `keyboard-types` knows under this
/// name, where it knows one.
pub uninterp spec fn code_of_name(name: Seq<char>) -> Option<u32>;

/// The number of this physical key: its place in the enumeration of
/// `keyboard-types`, counted from zero.
pub uninterp spec fn number_of(raw: global_hotkey::hotkey::Code) -> u32;

/// The bits and the text of each entry of a table of modifier labels.
pub open spec fn label_table(table: Seq<(Modifiers, &'static str)>) -> Seq<(u32, Seq<char>)> {
    table.map_values(|entry: (Modifiers, &'static str)| (entry.0@, entry.1@))
}

/// A set of modifier keys.
#[derive(Clone, Copy, Debug, PartialEq, Eq, Hash, Structural)]
pub struct Modifiers {
    bits: u32,
}

impl View for Modifiers {
    type V = u32;

    closed spec fn view(&self) -> u32 {
        self.bits
    }
}

impl Modifiers {
    /// Only the five known bits occur.
    #[verifier::type_invariant]
    pub closed spec fn wf(self) -> bool {
        self.bits & !KNOWN_BITS == 0
    }

    /// The empty set.
    pub fn empty() -> (r: Modifiers)
        ensures
            r@ == 0,
            r.wf(),
    {
        assert(0u32 & !0x2249u32 == 0) by (bit_vector);
        Modifiers { bits: 0 }
    }

    /// Alt (Option) alone.
    pub fn alt() -> (r: Modifiers)
        ensures
            r@ == ALT_BIT,
            r.wf(),
    {
        assert(0x1u32 & !0x2249u32 == 0) by (bit_vector);
        Modifiers { bits: ALT_BIT }
    }

    /// Control alone.
    pub fn control() -> (r: Modifiers)
        ensures
            r@ == CONTROL_BIT,
            r.wf(),
    {
        assert(0x8u32 & !0x2249u32 == 0) by (bit_vector);
        Modifiers { bits: CONTROL_BIT }
    }

    /// Meta alone: the platform's primary modifier.
    pub fn meta() -> (r: Modifiers)
        ensures
            r@ == META_BIT,
            r.wf(),
    {
        assert(0x40u32 & !0x2249u32 == 0) by (bit_vector);
        Modifiers { bits: META_BIT }
    }

    /// Shift alone.
    pub fn shift() -> (r: Modifiers)
        ensures
            r@ == SHIFT_BIT,
            r.wf(),
    {
        assert(0x200u32 & !0x2249u32 == 0) by (bit_vector);
        Modifiers { bits: SHIFT_BIT }
    }

    /// Super alone: the legacy name of the platform's primary modifier.
    /// A hotkey made with it holds Meta in its place.
    pub fn super_key() -> (r: Modifiers)
        ensures
            r@ == SUPER_BIT,
            r.wf(),
    {
        assert(0x2000u32 & !0x2249u32 == 0) by (bit_vector);
        Modifiers { bits: SUPER_BIT }
    }

    /// The set that holds the known bits of `bits` and no others.
    pub fn from_bits_truncate(bits: u32) -> (r: Modifiers)
        ensures
            r@ == bits & KNOWN_BITS,
            r.wf(),
    {
        assert((bits & 0x2249u32) & !0x2249u32 == 0) by (bit_vector);
        Modifiers { bits: bits & KNOWN_BITS }
    }

    /// The bits of the set.
    pub fn bits(&self) -> (r: u32)
        ensures
            r == self@,
            r & !KNOWN_BITS == 0,
    {
        proof {
            use_type_invariant(self);
        }
        self.bits
    }

    /// Whether every modifier of `other` is in this set.
    pub fn contains(&self, other: Modifiers) -> (r: bool)
        ensures
            r == holds_bits(self@, other@),
    {
        self.bits & other.bits == other.bits
    }

    /// Whether the set holds Meta, the platform's primary modifier.
    pub fn has_meta(&self) -> (r: bool)
        ensures
            r == holds_bits(self@, META_BIT),
    {
        self.bits & META_BIT == META_BIT
    }

    /// Whether no modifier is in the set.
    pub fn is_empty(&self) -> (r: bool)
        ensures
            r == (self@ == 0),
    {
        self.bits == 0
    }
}

impl std::ops::BitOr for Modifiers {
    type Output = Modifiers;

    fn bitor(self, rhs: Modifiers) -> (r: Modifiers)
        ensures
            r@ == self@ | rhs@,
    {
        proof {
            use_type_invariant(self);
            use_type_invariant(rhs);
        }
        let a: u32 = self.bits;
        let b: u32 = rhs.bits;
        assert((a | b) & !0x2249u32 == 0) by (bit_vector)
            requires
                a & !0x2249u32 == 0,
                b & !0x2249u32 == 0,
        ;
        Modifiers { bits: a | b }
    }
}

impl vstd::std_specs::ops::BitOrSpecImpl for Modifiers {
    open spec fn obeys_bitor_spec() -> bool {
        true
    }

    open spec fn bitor_req(self, rhs: Modifiers) -> bool {
        true
    }

    closed spec fn bitor_spec(self, rhs: Modifiers) -> Modifiers {
        Modifiers { bits: self.bits | rhs.bits }
    }
}

/// `as u32` on a `keyboard_types::Code`, the cast that `HotKey::new` applies to
/// its key: the place of the variant in the enumeration, which has under three
/// hundred variants and numbers them from zero.
#[verifier::external_body]
fn key_number(raw: global_hotkey::hotkey::Code) -> (n: u32)
    ensures
        n == number_of(raw),
        n <= MAX_KEY_NUMBER,
{
    raw as u32
}

/// `global_hotkey::hotkey::HotKey::new` with `Some` modifiers: it rewrites Super
/// to Meta, keeps every other bit, and makes the id of the modifier bits, moved
/// up by sixteen places, and the key's number. Hands back the modifier bits and
/// the id of the hotkey that it made.
#[verifier::external_body]
fn outside_hotkey(mods: Modifiers, key: KeyCode) -> (r: (u32, u32))
    ensures
        r.0 == normalized(mods@),
        r.1 == hotkey_id(normalized(mods@), key@),
{
    let flags = global_hotkey::hotkey::Modifiers::from_bits_retain(mods.bits);
    let hotkey = global_hotkey::hotkey::HotKey::new(Some(flags), key.raw);
    (hotkey.mods.bits(), hotkey.id)
}

/// `Display` of `keyboard_types::Code`: the name of the key, one fixed string
/// for each variant, which `FromStr` takes back to that variant.
#[verifier::external_body]
fn outside_key_name(key: KeyCode) -> (r: String)
    ensures
        r@ == code_name(key@),
        code_of_name(r@) == Some(key@),
{
    key.raw.to_string()
}

/// `FromStr` of `keyboard_types::Code`: the key that goes by this name, where
/// one does, held together with its number. A key may go by more names than
/// the one that is printed for it.
#[verifier::external_body]
fn outside_key_of_name(name: &str) -> (r: Option<KeyCode>)
    ensures
        match r {
            Some(key) => code_of_name(name@) == Some(key@) && key@ == number_of(key.raw_spec())
                && key@ <= MAX_KEY_NUMBER,
            None => code_of_name(name@) is None,
        },
{
    match name.parse::<global_hotkey::hotkey::Code>() {
        Ok(raw) => Some(KeyCode { number: raw as u32, raw }),
        Err(_) => None,
    }
}

/// The label of the key with this name: the name without a leading `Key`,
/// `Digit` or `Arrow`.
pub fn label_of(name: &str) -> (r: String)
    ensures
        r@ == key_label(name@),
{
    match strip_prefix(name, "Key") {
        Some(rest) => rest,
        None => match strip_prefix(name, "Digit") {
            Some(rest) => rest,
            None => match strip_prefix(name, "Arrow") {
                Some(rest) => rest,
                None => name.to_owned(),
            },
        },
    }
}

/// A hotkey in words: the labels of those modifiers of `table` that are in
/// `mods`, in the order of `table`, then the label of the key named
/// `key_name`.
pub fn text_of(table: [(Modifiers, &'static str); 4], mods: Modifiers, key_name: &str) -> (r:
    String)
    ensures
        r@ == hotkey_text(label_table(table@), mods@, key_name@),
{
    let ghost labels = label_table(table@);
    let mut out = String::new();
    let mut i: usize = 0;
    while i < 4
        invariant
            i <= 4,
            labels == label_table(table@),
            out@ == modifier_text(labels.take(i as int), mods@),
        decreases 4 - i,
    {
        let entry = table[i];
        proof {
            let now = labels.take(i + 1);
            assert(now.drop_last() =~= labels.take(i as int));
            assert(now.last() == labels[i as int]);
            assert(labels[i as int] == (entry.0@, entry.1@));
        }
        if mods.contains(entry.0) {
            out.append(entry.1);
        }
        i += 1;
    }
    assert(labels.take(4) =~= labels);
    let label = label_of(key_name);
    out.append(label.as_str());
    out
}

/// A physical key: a position on the keyboard, whatever the layout prints on it.
#[derive(Clone, Copy, Debug, Hash)]
pub struct KeyCode {
    number: u32,
    raw: global_hotkey::hotkey::Code,
}

impl View for KeyCode {
    type V = u32;

    closed spec fn view(&self) -> u32 {
        self.number
    }
}

impl KeyCode {
    /// The number is that of the key held, and fits in the lower half of a
    /// hotkey id.
    #[verifier::type_invariant]
    pub closed spec fn wf(self) -> bool {
        &&& self.number == number_of(self.raw)
        &&& self.number <= MAX_KEY_NUMBER
    }

    /// The key as `global-hotkey` takes it: the value that this key was
    /// made of.
    pub closed spec fn raw_spec(self) -> global_hotkey::hotkey::Code {
        self.raw
    }

    /// The key that `raw` names: it keeps `raw` as it is, beside the number
    /// that `raw` has in the enumeration.
    pub fn new(raw: global_hotkey::hotkey::Code) -> (r: KeyCode)
        ensures
            r.wf(),
            r.raw_spec() == raw,
            r@ == number_of(raw),
    {
        let number: u32 = key_number(raw);
        KeyCode { number, raw }
    }

    /// The key that goes by this name, such as `KeyF`, where one does.
    pub fn from_name(name: &str) -> (r: Option<KeyCode>)
        ensures
            match r {
                Some(key) => code_of_name(name@) == Some(key@) && key@ == number_of(
                    key.raw_spec(),
                ),
                None => code_of_name(name@) is None,
            },
    {
        outside_key_of_name(name)
    }

    /// The number of the key.
    pub fn number(&self) -> (r: u32)
        ensures
            r == self@,
            r == number_of(self.raw_spec()),
            r <= MAX_KEY_NUMBER,
    {
        proof {
            use_type_invariant(self);
        }
        self.number
    }

    /// The key as `global-hotkey` takes it.
    pub fn raw(&self) -> (r: global_hotkey::hotkey::Code)
        ensures
            r == self.raw_spec(),
    {
        self.raw
    }

    /// The name of the key, such as `KeyF`. The key goes by that name.
    pub fn name(&self) -> (r: String)
        ensures
            r@ == code_name(self@),
            code_of_name(r@) == Some(self@),
    {
        outside_key_name(*self)
    }

    /// The label of the key: its name without a leading `Key`, `Digit` or `Arrow`.
    pub fn label(&self) -> (r: String)
        ensures
            r@ == key_label(code_name(self@)),
    {
        let name = self.name();
        label_of(name.as_str())
    }

    /// Whether the key is Escape.
    pub fn is_escape(&self) -> (r: bool)
        ensures
            r == (code_name(self@) == "Escape"@),
    {
        self.name() == String::from_str("Escape")
    }

    /// Whether the key is itself a modifier key: a Control, Meta, Alt or
    /// Shift key.
    pub fn is_modifier(&self) -> (r: bool)
        ensures
            r == names_modifier(code_name(self@)),
    {
        let name = self.name();
        contains(name.as_str(), "Control") || contains(name.as_str(), "Meta") || contains(
            name.as_str(),
            "Alt",
        ) || contains(name.as_str(), "Shift")
    }
}

impl PartialEq for KeyCode {
    fn eq(&self, other: &KeyCode) -> (r: bool) {
        self.number == other.number
    }
}

impl Eq for KeyCode {

}

impl vstd::std_specs::cmp::PartialEqSpecImpl for KeyCode {
    open spec fn obeys_eq_spec() -> bool {
        true
    }

    open spec fn eq_spec(&self, other: &KeyCode) -> bool {
        self@ == other@
    }
}

/// A global keyboard shortcut: a set of modifiers and one physical key. Its
/// view is its id, by which two hotkeys are told apart.
#[derive(Clone, Copy, Debug, Hash)]
pub struct Hotkey {
    mods: Modifiers,
    key: KeyCode,
    id: u32,
}

impl View for Hotkey {
    type V = u32;

    closed spec fn view(&self) -> u32 {
        self.id
    }
}

impl Hotkey {
    /// The id is made of the modifiers and the key, Super does not occur, and
    /// both parts are in range.
    #[verifier::type_invariant]
    pub closed spec fn wf(self) -> bool {
        &&& self.mods.wf()
        &&& self.key.wf()
        &&& self.mods@ & SUPER_BIT == 0
        &&& self.id == hotkey_id(self.mods@, self.key@)
    }

    /// The modifier bits of the hotkey.
    pub closed spec fn mods_spec(self) -> u32 {
        self.mods@
    }

    /// The number of the hotkey's key.
    pub closed spec fn key_spec(self) -> u32 {
        self.key@
    }

    /// The key that the hotkey holds.
    pub closed spec fn key_value(self) -> KeyCode {
        self.key
    }

    /// The hotkey of these modifiers and this key. Super is taken as Meta.
    pub fn new(mods: Modifiers, key: KeyCode) -> (r: Hotkey)
        ensures
            r.wf(),
            r.mods_spec() == normalized(mods@),
            r.key_spec() == key@,
            r.key_value() == key,
            r@ == hotkey_id(normalized(mods@), key@),
    {
        proof {
            use_type_invariant(mods);
            use_type_invariant(key);
        }
        let parts = outside_hotkey(mods, key);
        let bits: u32 = mods.bits();
        proof {
            lemma_normalized_known(bits);
        }
        Hotkey { mods: Modifiers::from_bits_truncate(parts.0), key, id: parts.1 }
    }

    /// The id of the hotkey.
    pub fn id(&self) -> (r: u32)
        ensures
            r == self@,
            r == hotkey_id(self.mods_spec(), self.key_spec()),
    {
        proof {
            use_type_invariant(self);
        }
        self.id
    }

    /// The modifiers of the hotkey. Super is not among them.
    pub fn mods(&self) -> (r: Modifiers)
        ensures
            r@ == self.mods_spec(),
            r@ & SUPER_BIT == 0,
            r@ & !KNOWN_BITS == 0,
    {
        proof {
            use_type_invariant(self);
        }
        self.mods
    }

    /// The key of the hotkey.
    pub fn key(&self) -> (r: KeyCode)
        ensures
            r == self.key_value(),
            r@ == self.key_spec(),
            r@ <= MAX_KEY_NUMBER,
    {
        proof {
            use_type_invariant(self);
        }
        self.key
    }

    /// The hotkey in words, the modifiers written as `F` writes them.
    pub fn format<F: ModifierFormatInterface>(&self) -> (r: String)
        ensures
            r@ == hotkey_text(F::labels(), self.mods_spec(), code_name(self.key_spec())),
    {
        let table = F::get();
        proof {
            let labels = label_table(table@);
            assert(labels.len() == 4);
            assert forall|j: int| 0 <= j < 4 implies labels[j] == F::labels()[j] by {
                assert(labels[j] == (table@[j].0@, table@[j].1@));
            }
            assert(labels =~= F::labels());
        }
        let name = self.key.name();
        text_of(table, self.mods, name.as_str())
    }

    /// The hotkey in words, the modifiers written as macOS writes them.
    pub fn to_string(&self) -> (r: String)
        ensures
            r@ == hotkey_text(
                ModifierFormat::labels(),
                self.mods_spec(),
                code_name(self.key_spec()),
            ),
    {
        self.format::<ModifierFormat>()
    }
}

impl PartialEq for Hotkey {
    fn eq(&self, other: &Hotkey) -> (r: bool) {
        self.id == other.id
    }
}

impl Eq for Hotkey {

}

impl vstd::std_specs::cmp::PartialEqSpecImpl for Hotkey {
    open spec fn obeys_eq_spec() -> bool {
        true
    }

    open spec fn eq_spec(&self, other: &Hotkey) -> bool {
        self@ == other@
    }
}

/// Normalizing known modifier bits leaves known bits, without Super.
pub proof fn lemma_normalized_known(bits: u32)
    requires
        bits & !KNOWN_BITS == 0,
    ensures
        normalized(bits) & !KNOWN_BITS == 0,
        normalized(bits) & SUPER_BIT == 0,
        normalized(bits) & KNOWN_BITS == normalized(bits),
{
    assert(bits & 0x2000u32 != 0 ==> ((bits & !0x2000u32) | 0x40u32) & !0x2249u32 == 0
        && ((bits & !0x2000u32) | 0x40u32) & 0x2000u32 == 0
        && ((bits & !0x2000u32) | 0x40u32) & 0x2249u32 == ((bits & !0x2000u32) | 0x40u32))
        by (bit_vector)
        requires
            bits & !0x2249u32 == 0,
    ;
    assert(bits & 0x2000u32 == 0 ==> bits & 0x2249u32 == bits) by (bit_vector)
        requires
            bits & !0x2249u32 == 0,
    ;
}

/// Two pairs of modifier bits and key number have the same id exactly when
/// they are the same pair.
pub proof fn lemma_id_injective(mods_a: u32, key_a: u32, mods_b: u32, key_b: u32)
    requires
        mods_a & !KNOWN_BITS == 0,
        mods_b & !KNOWN_BITS == 0,
        key_a <= MAX_KEY_NUMBER,
        key_b <= MAX_KEY_NUMBER,
    ensures
        hotkey_id(mods_a, key_a) == hotkey_id(mods_b, key_b) <==> (mods_a == mods_b && key_a
            == key_b),
{
    assert(((mods_a << 16) | key_a) == ((mods_b << 16) | key_b) ==> (mods_a == mods_b && key_a
        == key_b)) by (bit_vector)
        requires
            mods_a & !0x2249u32 == 0,
            mods_b & !0x2249u32 == 0,
            key_a <= 0xffffu32,
            key_b <= 0xffffu32,
    ;
}

/// Two hotkeys are equal, that is have the same id, exactly when they have
/// the same modifiers and the same key.
pub proof fn lemma_equal_iff_same_id(a: Hotkey, b: Hotkey)
    requires
        a.wf(),
        b.wf(),
    ensures
        a@ == b@ <==> (a.mods_spec() == b.mods_spec() && a.key_spec() == b.key_spec()),
{
    lemma_id_injective(a.mods@, a.key@, b.mods@, b.key@);
}

} // verus!
