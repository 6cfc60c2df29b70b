use vstd::prelude::*;
use crate::signals::Signals;
use crate::text::str_eq;

verus! {

/// The combination that stops the listener: Escape alone.
pub const STOP_LISTENER: u16 = 0b1;

/// The combination that asks for a greeting: Q and C held together.
pub const HELLO_WORLD: u16 = 0b11000;

/// A key that takes part in a hotkey; each has a bit of its own in a combination.
#[derive(Copy, Clone, Debug, PartialEq, Eq, Structural)]
pub enum HotKey {
    NoComponent,
    Escape,
    ControlLeft,
    ShiftLeft,
    KeyQ,
    KeyC,
}

/// The signal that a combination of held keys stands for: only the exact
/// combinations count, any other key held with them cancels the hotkey.
pub open spec fn hotkey_signal(combination: u16) -> Signals {
    if combination == STOP_LISTENER {
        Signals::Shutdown
    } else if combination == HELLO_WORLD {
        Signals::PrintHelloWorld
    } else {
        Signals::NoSignal
    }
}

/// The component that a key stands for, the key given by its name.
pub open spec fn hotkey_of_name(name: Seq<char>) -> HotKey {
    if name == "Escape"@ {
        HotKey::Escape
    } else if name == "ControlLeft"@ {
        HotKey::ControlLeft
    } else if name == "ShiftLeft"@ {
        HotKey::ShiftLeft
    } else if name == "KeyQ"@ {
        HotKey::KeyQ
    } else if name == "KeyC"@ {
        HotKey::KeyC
    } else {
        HotKey::NoComponent
    }
}

impl HotKey {
    /// The bit of this component in a combination.
    pub open spec fn mask(self) -> u16 {
        match self {
            HotKey::NoComponent => 0b0,
            HotKey::Escape => 0b1,
            HotKey::ControlLeft => 0b10,
            HotKey::ShiftLeft => 0b100,
            HotKey::KeyQ => 0b1000,
            HotKey::KeyC => 0b10000,
        }
    }

    pub fn bits(&self) -> (bits: u16)
        ensures
            bits == self.mask(),
    {
        match self {
            HotKey::NoComponent => 0b0,
            HotKey::Escape => 0b1,
            HotKey::ControlLeft => 0b10,
            HotKey::ShiftLeft => 0b100,
            HotKey::KeyQ => 0b1000,
            HotKey::KeyC => 0b10000,
        }
    }

    /// The component that a key stands for, the key given by its name.
    pub fn from_key_name(name: &str) -> (key: HotKey)
        ensures
            key == hotkey_of_name(name@),
    {
        if str_eq(name, "Escape") {
            HotKey::Escape
        } else if str_eq(name, "ControlLeft") {
            HotKey::ControlLeft
        } else if str_eq(name, "ShiftLeft") {
            HotKey::ShiftLeft
        } else if str_eq(name, "KeyQ") {
            HotKey::KeyQ
        } else if str_eq(name, "KeyC") {
            HotKey::KeyC
        } else {
            HotKey::NoComponent
        }
    }

    /// The signal that the held keys stand for.
    pub fn get_hotkey_signal(combination: u16) -> (signal: Signals)
        ensures
            signal == hotkey_signal(combination),
    {
        if combination == STOP_LISTENER {
            Signals::Shutdown
        } else if combination == HELLO_WORLD {
            Signals::PrintHelloWorld
        } else {
            Signals::NoSignal
        }
    }

    /// Adds this key to the held keys.
    pub fn press_key(&self, combination: &mut u16)
        ensures
            *final(combination) == *old(combination) | self.mask(),
    {
        *combination = *combination | self.bits();
    }

    /// Removes this key from the held keys.
    pub fn release_key(&self, combination: &mut u16)
        ensures
            *final(combination) == *old(combination) & !self.mask(),
    {
        *combination = *combination & !self.bits();
    }
}

/// Releasing a key that was not held before it was pressed gives back the
/// combination from before the press.
pub proof fn lemma_release_undoes_press(key: HotKey, combination: u16)
    requires
        combination & key.mask() == 0,
    ensures
        (combination | key.mask()) & !key.mask() == combination,
{
    let m: u16 = key.mask();
    assert((combination & m) == 0 ==> (combination | m) & !m == combination) by (bit_vector);
}

/// Releasing a key that is not held changes nothing, and a key released is
/// not held.
pub proof fn lemma_release_clears(key: HotKey, combination: u16)
    ensures
        combination & key.mask() == 0 ==> combination & !key.mask() == combination,
        (combination & !key.mask()) & key.mask() == 0,
        (combination & !key.mask()) & !key.mask() == combination & !key.mask(),
{
    let m: u16 = key.mask();
    assert(combination & m == 0 ==> combination & !m == combination) by (bit_vector);
    assert((combination & !m) & m == 0) by (bit_vector);
    assert((combination & !m) & !m == combination & !m) by (bit_vector);
}

/// Pressing a key that is already held changes nothing, and a key pressed is
/// held.
pub proof fn lemma_press_idempotent(key: HotKey, combination: u16)
    ensures
        (combination | key.mask()) | key.mask() == combination | key.mask(),
        (combination | key.mask()) & key.mask() == key.mask(),
{
    let m: u16 = key.mask();
    assert((combination | m) | m == combination | m) by (bit_vector);
    assert((combination | m) & m == m) by (bit_vector);
}

/// Pressing or releasing one key leaves every other key's bit as it was.
pub proof fn lemma_keys_independent(key: HotKey, other: HotKey, combination: u16)
    requires
        key != other,
    ensures
        (combination | key.mask()) & other.mask() == combination & other.mask(),
        (combination & !key.mask()) & other.mask() == combination & other.mask(),
{
    let m: u16 = key.mask();
    let o: u16 = other.mask();
    assert(m & o == 0) by (bit_vector)
        requires
            m == 0 || m == 1 || m == 2 || m == 4 || m == 8 || m == 16,
            o == 0 || o == 1 || o == 2 || o == 4 || o == 8 || o == 16,
            m != o || m == 0,
    ;
    assert(m & o == 0 ==> (combination | m) & o == combination & o) by (bit_vector);
    assert(m & o == 0 ==> (combination & !m) & o == combination & o) by (bit_vector);
}

/// Held keys are hotkey components only: from a combination within the five
/// component bits, pressing or releasing any key stays within them.
pub proof fn lemma_combination_within_components(key: HotKey, combination: u16)
    requires
        combination & !0b11111u16 == 0,
    ensures
        (combination | key.mask()) & !0b11111u16 == 0,
        (combination & !key.mask()) & !0b11111u16 == 0,
        combination <= 0b11111,
{
    let m: u16 = key.mask();
    assert((combination | m) & !0b11111u16 == 0) by (bit_vector)
        requires
            combination & !0b11111u16 == 0,
            m == 0 || m == 1 || m == 2 || m == 4 || m == 8 || m == 16,
    ;
    assert((combination & !m) & !0b11111u16 == 0) by (bit_vector)
        requires
            combination & !0b11111u16 == 0,
    ;
    assert(combination <= 0b11111) by (bit_vector)
        requires
            combination & !0b11111u16 == 0,
    ;
}


/// A key name stands for a component exactly when it is that component's
/// name; every other name stands for none.
pub proof fn lemma_key_names_exact(name: Seq<char>)
    ensures
        hotkey_of_name(name) == HotKey::Escape <==> name == "Escape"@,
        hotkey_of_name(name) == HotKey::ControlLeft <==> name == "ControlLeft"@,
        hotkey_of_name(name) == HotKey::ShiftLeft <==> name == "ShiftLeft"@,
        hotkey_of_name(name) == HotKey::KeyQ <==> name == "KeyQ"@,
        hotkey_of_name(name) == HotKey::KeyC <==> name == "KeyC"@,
        hotkey_of_name(name) == HotKey::NoComponent <==> (name != "Escape"@ && name != "ControlLeft"@
            && name != "ShiftLeft"@ && name != "KeyQ"@ && name != "KeyC"@),
{
    reveal_strlit("Escape");
    reveal_strlit("ControlLeft");
    reveal_strlit("ShiftLeft");
    reveal_strlit("KeyQ");
    reveal_strlit("KeyC");
    assert("Escape"@.len() == 6 && "ControlLeft"@.len() == 11 && "ShiftLeft"@.len() == 9);
    assert("KeyQ"@.len() == 4 && "KeyC"@.len() == 4);
    assert("KeyQ"@ != "KeyC"@) by {
        assert("KeyQ"@[3] != "KeyC"@[3]);
    }
}

/// The bits of the components in a combination: Escape 0b1, ControlLeft
/// 0b10, ShiftLeft 0b100, Q 0b1000, C 0b10000; no bit for other keys.
pub proof fn lemma_component_bits(key: HotKey)
    ensures
        key == HotKey::NoComponent <==> key.mask() == 0,
        key == HotKey::Escape <==> key.mask() == 0b1,
        key == HotKey::ControlLeft <==> key.mask() == 0b10,
        key == HotKey::ShiftLeft <==> key.mask() == 0b100,
        key == HotKey::KeyQ <==> key.mask() == 0b1000,
        key == HotKey::KeyC <==> key.mask() == 0b10000,
{
}

} // verus!
