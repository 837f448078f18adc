//! The lookup ROM: one byte for each combination of a key and the state of
//! the modifiers.

use vstd::prelude::*;
use crate::code::{char_byte, low_byte, Control, Key};

verus! {

/// The number of addresses: 13 address bits.
pub const ROM_SIZE: usize = 0x2000;

/// Address bit 12: the key is an extended key.
pub const EXTENDED: usize = 0x1000;

/// The scan code occupies address bits 11 to 4.
pub const SCAN_CODE_SHIFT: usize = 4;

/// Address bit 3: num lock is on.
pub const NUM_LOCK: usize = 8;

/// Address bit 2: control is held.
pub const CONTROL: usize = 4;

/// Address bit 1: caps lock is on.
pub const CAPS_LOCK: usize = 2;

/// Address bit 0: shift is held.
pub const SHIFT: usize = 1;

/// The number of addresses of one key: one for each state of the modifiers.
pub const SLOTS: usize = 16;

/// The ROM image.
#[derive(Clone, Copy, Debug)]
pub struct Rom {
    pub bytes: [u8; ROM_SIZE],
}

impl View for Rom {
    type V = Seq<u8>;

    open spec fn view(&self) -> Seq<u8> {
        self.bytes@
    }
}

/// A ROM that holds 0 at every address.
pub open spec fn blank() -> Seq<u8> {
    Seq::new(ROM_SIZE as nat, |a: int| 0u8)
}

/// The address of a key while no modifier is active.
pub open spec fn base(key: Key) -> int {
    key.scan_code as int * SLOTS as int + if key.extended {
        EXTENDED as int
    } else {
        0
    }
}

/// What the given modifiers add to the address of a key.
pub open spec fn modifiers(num_lock: bool, control: bool, caps_lock: bool, shift: bool) -> int {
    (if num_lock {
        NUM_LOCK as int
    } else {
        0
    }) + (if control {
        CONTROL as int
    } else {
        0
    }) + (if caps_lock {
        CAPS_LOCK as int
    } else {
        0
    }) + (if shift {
        SHIFT as int
    } else {
        0
    })
}

/// The address of a key in the given state of the modifiers.
pub open spec fn address(key: Key, num_lock: bool, control: bool, caps_lock: bool, shift: bool) -> int {
    base(key) + modifiers(num_lock, control, caps_lock, shift)
}

/// The address of a key in the given state of the modifiers, put together
/// from its bits.
pub open spec fn address_bits(
    key: Key,
    num_lock: bool,
    control: bool,
    caps_lock: bool,
    shift: bool,
) -> usize {
    (if key.extended {
        EXTENDED
    } else {
        0
    }) | ((key.scan_code as usize) << SCAN_CODE_SHIFT) | (if num_lock {
        NUM_LOCK
    } else {
        0
    }) | (if control {
        CONTROL
    } else {
        0
    }) | (if caps_lock {
        CAPS_LOCK
    } else {
        0
    }) | (if shift {
        SHIFT
    } else {
        0
    })
}

/// An address is made of its bits: bit 12 for the extended flag, bits 11 to
/// 4 for the scan code, bits 3 to 0 for num lock, control, caps lock and
/// shift.
pub proof fn lemma_address_bits(
    key: Key,
    num_lock: bool,
    control: bool,
    caps_lock: bool,
    shift: bool,
)
    ensures
        address(key, num_lock, control, caps_lock, shift) == address_bits(
            key,
            num_lock,
            control,
            caps_lock,
            shift,
        ),
        0 <= address(key, num_lock, control, caps_lock, shift) < ROM_SIZE,
{
    let e: usize = if key.extended {
        EXTENDED
    } else {
        0
    };
    let code: u8 = key.scan_code;
    let n: usize = if num_lock {
        NUM_LOCK
    } else {
        0
    };
    let c: usize = if control {
        CONTROL
    } else {
        0
    };
    let l: usize = if caps_lock {
        CAPS_LOCK
    } else {
        0
    };
    let s: usize = if shift {
        SHIFT
    } else {
        0
    };
    assert(e | ((code as usize) << 4usize) | n | c | l | s == e + (code as usize) * 16 + n + c + l
        + s) by (bit_vector)
        requires
            e == 0 || e == 0x1000,
            n == 0 || n == 8,
            c == 0 || c == 4,
            l == 0 || l == 2,
            s == 0 || s == 1,
    ;
}

/// What a key sends without control and num lock. Shift selects the shift
/// code; caps lock reverses that choice where the normal code can take it.
pub open spec fn plain_byte(key: Key, caps_lock: bool, shift: bool) -> u8 {
    if (caps_lock && key.normal.spec_can_caps_lock()) != shift {
        key.shift.spec_encode()
    } else {
        key.normal.spec_encode()
    }
}

/// What a key sends with control and without num lock, in a ROM that held
/// `before` at that address: a key without a control code leaves the byte,
/// a control code of its own replaces shift and caps lock, and a key whose
/// control is similar sends what it sends without control.
pub open spec fn control_byte(key: Key, caps_lock: bool, shift: bool, before: u8) -> u8 {
    match key.control {
        Control::Absent => before,
        Control::Explicit(code) => code.spec_encode(),
        Control::Similar => plain_byte(key, caps_lock, shift),
    }
}

/// What a key sends while num lock is off, where `rom` is the ROM before the
/// key is written.
pub open spec fn unlocked_byte(key: Key, rom: Seq<u8>, control: bool, caps_lock: bool, shift: bool) -> u8 {
    if control {
        control_byte(key, caps_lock, shift, rom[address(key, false, true, caps_lock, shift)])
    } else {
        plain_byte(key, caps_lock, shift)
    }
}

/// The byte of a key in the given state of the modifiers, where `rom` is the
/// ROM before the key is written.
///
/// Num lock changes nothing for a key without an override. For a key with one,
/// the key alone sends the override, shift sends what the key sends without
/// shift and num lock, and control without shift sends 0.
pub open spec fn slot_byte(
    key: Key,
    rom: Seq<u8>,
    num_lock: bool,
    control: bool,
    caps_lock: bool,
    shift: bool,
) -> u8 {
    match key.num_lock_override {
        Some(character) if num_lock => {
            if control {
                if shift {
                    unlocked_byte(key, rom, true, caps_lock, true)
                } else {
                    0u8
                }
            } else if shift {
                plain_byte(key, caps_lock, false)
            } else {
                low_byte(character)
            }
        },
        _ => unlocked_byte(key, rom, control, caps_lock, shift),
    }
}

/// The ROM after a key is written into `rom`: the sixteen addresses of the key
/// hold its bytes, all others are unchanged.
pub open spec fn spec_write_key(rom: Seq<u8>, key: Key) -> Seq<u8> {
    Seq::new(
        rom.len(),
        |a: int|
            {
                let m = a - base(key);
                if 0 <= m < SLOTS {
                    slot_byte(key, rom, m / 8 == 1, m / 4 % 2 == 1, m / 2 % 2 == 1, m % 2 == 1)
                } else {
                    rom[a]
                }
            },
    )
}

/// The ROM of a list of keys: each key is written in turn into a ROM that
/// starts blank, so that of two keys with the same scan code and extended
/// flag the later one is written over the earlier.
pub open spec fn spec_build(keys: Seq<Key>) -> Seq<u8>
    decreases keys.len(),
{
    if keys.len() == 0 {
        blank()
    } else {
        spec_write_key(spec_build(keys.drop_last()), keys.last())
    }
}

impl Rom {
    /// A ROM that holds 0 at every address.
    pub fn new() -> (rom: Rom)
        ensures
            rom@ == blank(),
    {
        let rom = Rom { bytes: [0u8; ROM_SIZE] };
        rom
    }

    /// The byte at an address; 0 for an address outside the ROM.
    pub fn get(&self, addr: usize) -> (byte: u8)
        ensures
            byte == if addr < ROM_SIZE {
                self@[addr as int]
            } else {
                0u8
            },
    {
        if addr < ROM_SIZE {
            self.bytes[addr]
        } else {
            0
        }
    }

    /// Writes the bytes of a key to its sixteen addresses.
    pub fn write_key(&mut self, key: &Key)
        ensures
            final(self)@ == spec_write_key(old(self)@, *key),
    {
        let mut addr: usize = key.scan_code as usize * SLOTS;
        if key.extended {
            addr = addr + EXTENDED;
        }
        self.write_plain(key, addr);
        self.write_control(key, addr);
        self.write_locked(addr);
        if let Some(character) = key.num_lock_override {
            self.write_override(addr, character);
        }
    }

    /// The four bytes that the key sends without control and num lock.
    fn write_plain(&mut self, key: &Key, addr: usize)
        requires
            addr == base(*key),
        ensures
            forall|a: int|
                0 <= a < ROM_SIZE && !(addr <= a < addr + CONTROL) ==> final(self)@[a] == old(
                    self,
                )@[a],
            final(self)@[addr as int] == plain_byte(*key, false, false),
            final(self)@[addr + 1] == plain_byte(*key, false, true),
            final(self)@[addr + 2] == plain_byte(*key, true, false),
            final(self)@[addr + 3] == plain_byte(*key, true, true),
    {
        let normal: u8 = key.normal.encode();
        let shift: u8 = key.shift.encode();
        self.bytes[addr] = normal;
        self.bytes[addr + SHIFT] = shift;
        if key.normal.can_caps_lock() {
            self.bytes[addr + CAPS_LOCK] = shift;
            self.bytes[addr + CAPS_LOCK + SHIFT] = normal;
        } else {
            self.bytes[addr + CAPS_LOCK] = normal;
            self.bytes[addr + CAPS_LOCK + SHIFT] = shift;
        }
    }

    /// The four bytes that the key sends with control and without num lock.
    fn write_control(&mut self, key: &Key, addr: usize)
        requires
            addr == base(*key),
            old(self)@[addr as int] == plain_byte(*key, false, false),
            old(self)@[addr + 1] == plain_byte(*key, false, true),
            old(self)@[addr + 2] == plain_byte(*key, true, false),
            old(self)@[addr + 3] == plain_byte(*key, true, true),
        ensures
            forall|a: int|
                0 <= a < ROM_SIZE && !(addr + CONTROL <= a < addr + NUM_LOCK) ==> final(self)@[a]
                    == old(self)@[a],
            final(self)@[addr + 4] == control_byte(*key, false, false, old(self)@[addr + 4]),
            final(self)@[addr + 5] == control_byte(*key, false, true, old(self)@[addr + 5]),
            final(self)@[addr + 6] == control_byte(*key, true, false, old(self)@[addr + 6]),
            final(self)@[addr + 7] == control_byte(*key, true, true, old(self)@[addr + 7]),
    {
        match key.control {
            Control::Absent => {},
            Control::Explicit(code) => {
                let control: u8 = code.encode();
                self.bytes[addr + CONTROL] = control;
                self.bytes[addr + CONTROL + SHIFT] = control;
                self.bytes[addr + CONTROL + CAPS_LOCK] = control;
                self.bytes[addr + CONTROL + CAPS_LOCK + SHIFT] = control;
            },
            Control::Similar => {
                self.copy(addr, addr + CONTROL);
                self.copy(addr + SHIFT, addr + CONTROL + SHIFT);
                self.copy(addr + CAPS_LOCK, addr + CONTROL + CAPS_LOCK);
                self.copy(addr + CAPS_LOCK + SHIFT, addr + CONTROL + CAPS_LOCK + SHIFT);
            },
        }
    }

    /// Num lock on: the eight bytes that the key sends with num lock off.
    fn write_locked(&mut self, addr: usize)
        requires
            addr + SLOTS <= ROM_SIZE,
        ensures
            forall|a: int|
                0 <= a < ROM_SIZE && !(addr + NUM_LOCK <= a < addr + SLOTS) ==> final(self)@[a]
                    == old(self)@[a],
            forall|a: int|
                addr + NUM_LOCK <= a < addr + SLOTS ==> final(self)@[a] == old(self)@[a
                    - NUM_LOCK],
    {
        self.copy(addr, addr + NUM_LOCK);
        self.copy(addr + SHIFT, addr + NUM_LOCK + SHIFT);
        self.copy(addr + CAPS_LOCK, addr + NUM_LOCK + CAPS_LOCK);
        self.copy(addr + CAPS_LOCK + SHIFT, addr + NUM_LOCK + CAPS_LOCK + SHIFT);
        self.copy(addr + CONTROL, addr + NUM_LOCK + CONTROL);
        self.copy(addr + CONTROL + SHIFT, addr + NUM_LOCK + CONTROL + SHIFT);
        self.copy(addr + CONTROL + CAPS_LOCK, addr + NUM_LOCK + CONTROL + CAPS_LOCK);
        self.copy(
            addr + CONTROL + CAPS_LOCK + SHIFT,
            addr + NUM_LOCK + CONTROL + CAPS_LOCK + SHIFT,
        );
    }

    /// Num lock on, for a key with an override: control without shift sends
    /// nothing, shift sends what the key sends alone, the key alone sends the
    /// override.
    fn write_override(&mut self, addr: usize, character: char)
        requires
            addr + SLOTS <= ROM_SIZE,
        ensures
            forall|a: int|
                0 <= a < ROM_SIZE && !(addr + NUM_LOCK <= a < addr + SLOTS) ==> final(self)@[a]
                    == old(self)@[a],
            final(self)@[addr + 8] == low_byte(character),
            final(self)@[addr + 9] == old(self)@[addr as int],
            final(self)@[addr + 10] == low_byte(character),
            final(self)@[addr + 11] == old(self)@[addr + 2],
            final(self)@[addr + 12] == 0,
            final(self)@[addr + 13] == old(self)@[addr + 13],
            final(self)@[addr + 14] == 0,
            final(self)@[addr + 15] == old(self)@[addr + 15],
    {
        self.bytes[addr + NUM_LOCK + CONTROL] = 0;
        self.bytes[addr + NUM_LOCK + CONTROL + CAPS_LOCK] = 0;
        self.copy(addr, addr + NUM_LOCK + SHIFT);
        self.copy(addr + CAPS_LOCK, addr + NUM_LOCK + CAPS_LOCK + SHIFT);
        let lock: u8 = char_byte(character);
        self.bytes[addr + NUM_LOCK] = lock;
        self.bytes[addr + NUM_LOCK + CAPS_LOCK] = lock;
    }

    fn copy(&mut self, from: usize, to: usize)
        requires
            from < ROM_SIZE,
            to < ROM_SIZE,
        ensures
            final(self)@ == old(self)@.update(to as int, old(self)@[from as int]),
    {
        let byte: u8 = self.bytes[from];
        self.bytes[to] = byte;
    }
}

/// Writes each key in turn into a blank ROM.
pub fn build_rom(keys: &[Key]) -> (rom: Rom)
    ensures
        rom@ == spec_build(keys@),
{
    let mut rom = Rom::new();
    let n: usize = keys.len();
    let mut i: usize = 0;
    while i < n
        invariant
            i <= n,
            n == keys@.len(),
            rom@ == spec_build(keys@.take(i as int)),
        decreases n - i,
    {
        assert(keys@.take(i + 1).drop_last() =~= keys@.take(i as int));
        rom.write_key(&keys[i]);
        i += 1;
    }
    assert(keys@.take(n as int) =~= keys@);
    rom
}

/// Whether no later key of the list has the scan code and extended flag of
/// key `i`, so that nothing is written over the bytes of key `i`.
pub open spec fn last_at_base(keys: Seq<Key>, i: int) -> bool {
    forall|j: int| i < j < keys.len() ==> base(#[trigger] keys[j]) != base(keys[i])
}

/// Whether no other key of the list has the scan code and extended flag of
/// key `i`.
pub open spec fn alone_at_base(keys: Seq<Key>, i: int) -> bool {
    forall|j: int| 0 <= j < keys.len() && j != i ==> base(#[trigger] keys[j]) != base(keys[i])
}

/// Writing a key puts the byte of each state of the modifiers at the key's
/// address for that state, and changes no address of another key.
pub proof fn lemma_write_key(
    rom: Seq<u8>,
    key: Key,
    num_lock: bool,
    control: bool,
    caps_lock: bool,
    shift: bool,
)
    requires
        rom.len() == ROM_SIZE,
    ensures
        spec_write_key(rom, key).len() == ROM_SIZE,
        0 <= address(key, num_lock, control, caps_lock, shift) < ROM_SIZE,
        spec_write_key(rom, key)[address(key, num_lock, control, caps_lock, shift)] == slot_byte(
            key,
            rom,
            num_lock,
            control,
            caps_lock,
            shift,
        ),
        forall|a: int|
            0 <= a < ROM_SIZE && !(base(key) <= a < base(key) + SLOTS) ==> spec_write_key(
                rom,
                key,
            )[a] == rom[a],
{
}

/// What holds of the ROM right after a key is written into it, whatever the
/// ROM held before: a key without a control code leaves its four control
/// addresses as they were, which in a blank ROM is the NUL byte; a key whose
/// control is similar sends with control what it sends without; and a key
/// with a num-lock override sends the NUL byte while num lock is on and
/// control is held without shift.
pub proof fn lemma_write_key_control(rom: Seq<u8>, key: Key, caps_lock: bool, shift: bool)
    requires
        rom.len() == ROM_SIZE,
    ensures
        key.control == Control::Absent ==> spec_write_key(rom, key)[address(
            key,
            false,
            true,
            caps_lock,
            shift,
        )] == rom[address(key, false, true, caps_lock, shift)],
        key.control == Control::Similar ==> spec_write_key(rom, key)[address(
            key,
            false,
            true,
            caps_lock,
            shift,
        )] == spec_write_key(rom, key)[address(key, false, false, caps_lock, shift)],
        key.num_lock_override is Some ==> spec_write_key(rom, key)[address(
            key,
            true,
            true,
            caps_lock,
            false,
        )] == 0,
{
    lemma_write_key(rom, key, false, true, caps_lock, shift);
    lemma_write_key(rom, key, false, false, caps_lock, shift);
    lemma_write_key(rom, key, true, true, caps_lock, false);
}

/// The ROM of any list of keys has all its addresses.
pub proof fn lemma_build_len(keys: Seq<Key>)
    ensures
        spec_build(keys).len() == ROM_SIZE,
    decreases keys.len(),
{
    if keys.len() > 0 {
        lemma_build_len(keys.drop_last());
    }
}

/// An address that belongs to no key of the list holds 0.
pub proof fn lemma_build_untouched(keys: Seq<Key>, a: int)
    requires
        0 <= a < ROM_SIZE,
        forall|j: int|
            0 <= j < keys.len() ==> !(base(#[trigger] keys[j]) <= a < base(keys[j]) + SLOTS),
    ensures
        spec_build(keys)[a] == 0,
    decreases keys.len(),
{
    if keys.len() > 0 {
        let init = keys.drop_last();
        lemma_build_len(init);
        lemma_build_untouched(init, a);
    }
}

/// Where no later key is written over key `i`, the addresses of key `i` hold
/// what the key wrote into the ROM of the keys before it.
pub proof fn lemma_build_last(keys: Seq<Key>, i: int, a: int)
    requires
        0 <= i < keys.len(),
        last_at_base(keys, i),
        base(keys[i]) <= a < base(keys[i]) + SLOTS,
    ensures
        spec_build(keys)[a] == spec_write_key(spec_build(keys.take(i)), keys[i])[a],
    decreases keys.len(),
{
    let init = keys.drop_last();
    lemma_build_len(init);
    if i < keys.len() - 1 {
        lemma_build_last(init, i, a);
        assert(init.take(i) =~= keys.take(i));
    }
}

/// Where no other key has the scan code and extended flag of key `i`, the
/// addresses of key `i` hold what the key writes into a blank ROM.
pub proof fn lemma_build_alone_at(keys: Seq<Key>, i: int, a: int)
    requires
        0 <= i < keys.len(),
        alone_at_base(keys, i),
        base(keys[i]) <= a < base(keys[i]) + SLOTS,
    ensures
        spec_build(keys)[a] == spec_write_key(blank(), keys[i])[a],
{
    let key = keys[i];
    let before = spec_build(keys.take(i));
    lemma_build_len(keys.take(i));
    lemma_build_last(keys, i, a);
    assert forall|c: int| base(key) <= c < base(key) + SLOTS implies before[c] == 0 by {
        lemma_build_untouched(keys.take(i), c);
    }
}

/// Where no other key has the scan code and extended flag of key `i`, each
/// address of key `i` holds the byte that the key writes into a blank ROM,
/// whatever the order of the list.
pub proof fn lemma_build_alone(
    keys: Seq<Key>,
    i: int,
    num_lock: bool,
    control: bool,
    caps_lock: bool,
    shift: bool,
)
    requires
        0 <= i < keys.len(),
        alone_at_base(keys, i),
    ensures
        spec_build(keys)[address(keys[i], num_lock, control, caps_lock, shift)] == slot_byte(
            keys[i],
            blank(),
            num_lock,
            control,
            caps_lock,
            shift,
        ),
{
    lemma_build_alone_at(keys, i, address(keys[i], num_lock, control, caps_lock, shift));
    lemma_write_key(blank(), keys[i], num_lock, control, caps_lock, shift);
}

/// Whether no two keys of the list have the same scan code and extended flag.
pub open spec fn collision_free(keys: Seq<Key>) -> bool {
    forall|i: int, j: int|
        0 <= i < keys.len() && 0 <= j < keys.len() && i != j ==> base(#[trigger] keys[i]) != base(
            #[trigger] keys[j],
        )
}

/// The order of the keys does not matter where no two of them have the same
/// scan code and extended flag: two such lists of the same keys give the
/// same ROM.
pub proof fn lemma_build_order(a: Seq<Key>, b: Seq<Key>)
    requires
        collision_free(a),
        collision_free(b),
        forall|key: Key| a.contains(key) <==> b.contains(key),
    ensures
        spec_build(a) == spec_build(b),
{
    lemma_build_len(a);
    lemma_build_len(b);
    assert forall|x: int| 0 <= x < ROM_SIZE implies spec_build(a)[x] == spec_build(b)[x] by {
        if exists|i: int| 0 <= i < a.len() && base(#[trigger] a[i]) <= x < base(a[i]) + SLOTS {
            let i = choose|i: int| 0 <= i < a.len() && base(#[trigger] a[i]) <= x < base(a[i]) + SLOTS;
            assert(a.contains(a[i]));
            let j = choose|j: int| 0 <= j < b.len() && b[j] == a[i];
            lemma_build_alone_at(a, i, x);
            lemma_build_alone_at(b, j, x);
        } else {
            assert forall|j: int| 0 <= j < b.len() implies !(base(#[trigger] b[j]) <= x < base(
                b[j],
            ) + SLOTS) by {
                assert(b.contains(b[j]));
                let i = choose|i: int| 0 <= i < a.len() && a[i] == b[j];
            }
            lemma_build_untouched(a, x);
            lemma_build_untouched(b, x);
        }
    }
}

/// A key without a control code, and without another key at its scan code
/// and extended flag, sends the NUL byte whenever control is held.
pub proof fn lemma_absent_control(
    keys: Seq<Key>,
    i: int,
    num_lock: bool,
    caps_lock: bool,
    shift: bool,
)
    requires
        0 <= i < keys.len(),
        keys[i].control == Control::Absent,
        alone_at_base(keys, i),
    ensures
        spec_build(keys)[address(keys[i], num_lock, true, caps_lock, shift)] == 0,
{
    lemma_build_alone(keys, i, num_lock, true, caps_lock, shift);
}

/// A key whose control is similar, and over which no later key is written,
/// sends with control what it sends without, whatever caps lock and shift are.
pub proof fn lemma_similar_control(keys: Seq<Key>, i: int, caps_lock: bool, shift: bool)
    requires
        0 <= i < keys.len(),
        keys[i].control == Control::Similar,
        last_at_base(keys, i),
    ensures
        spec_build(keys)[address(keys[i], false, true, caps_lock, shift)] == spec_build(
            keys,
        )[address(keys[i], false, false, caps_lock, shift)],
{
    let before = spec_build(keys.take(i));
    lemma_build_len(keys.take(i));
    lemma_build_last(keys, i, address(keys[i], false, true, caps_lock, shift));
    lemma_build_last(keys, i, address(keys[i], false, false, caps_lock, shift));
    lemma_write_key(before, keys[i], false, true, caps_lock, shift);
    lemma_write_key(before, keys[i], false, false, caps_lock, shift);
}

/// A key with a num-lock override, and over which no later key is written,
/// sends the NUL byte while num lock is on and control is held without shift,
/// whatever its codes are.
pub proof fn lemma_override_control(keys: Seq<Key>, i: int, caps_lock: bool)
    requires
        0 <= i < keys.len(),
        keys[i].num_lock_override is Some,
        last_at_base(keys, i),
    ensures
        spec_build(keys)[address(keys[i], true, true, caps_lock, false)] == 0,
{
    let before = spec_build(keys.take(i));
    lemma_build_len(keys.take(i));
    lemma_build_last(keys, i, address(keys[i], true, true, caps_lock, false));
    lemma_write_key(before, keys[i], true, true, caps_lock, false);
}

} // verus!
