use vstd::prelude::*;

verus! {

/// Number of keys on the keypad.
pub const NUM_KEYS: usize = 16;

/// Whether `key` names a key of the keypad and that key is down.
pub open spec fn key_down(keys: Seq<bool>, key: int) -> bool {
    0 <= key < NUM_KEYS && keys[key]
}

/// The lowest key at or above `from` that is down.
pub open spec fn first_down_from(keys: Seq<bool>, from: int) -> Option<u8>
    decreases NUM_KEYS - from,
{
    if from < 0 || from >= NUM_KEYS {
        None
    } else if keys[from] {
        Some(from as u8)
    } else {
        first_down_from(keys, from + 1)
    }
}

/// The lowest key that is down, if any.
pub open spec fn pressed_key(keys: Seq<bool>) -> Option<u8> {
    first_down_from(keys, 0)
}

/// Which of the sixteen keys (0 to 15) are held down at one moment.
pub struct Keypad {
    keys: Vec<bool>,
}

impl View for Keypad {
    type V = Seq<bool>;

    closed spec fn view(&self) -> Seq<bool> {
        self.keys@
    }
}

impl Keypad {
    pub open spec fn wf(&self) -> bool {
        self@.len() == NUM_KEYS
    }

    /// A keypad with no key down.
    pub fn new() -> (r: Keypad)
        ensures
            r.wf(),
            forall|k: int| 0 <= k < NUM_KEYS ==> !r@[k],
    {
        let mut keys: Vec<bool> = Vec::new();
        while keys.len() < NUM_KEYS
            invariant
                keys@.len() <= NUM_KEYS,
                forall|k: int| 0 <= k < keys@.len() ==> !keys@[k],
            decreases NUM_KEYS - keys@.len(),
        {
            keys.push(false);
        }
        Keypad { keys }
    }

    pub fn set_key(&mut self, key: u8, down: bool)
        requires
            old(self).wf(),
            key < NUM_KEYS,
        ensures
            final(self).wf(),
            final(self)@ == old(self)@.update(key as int, down),
    {
        self.keys.set(key as usize, down);
    }

    /// Whether `key` is down; a value outside 0 to 15 names no key and is never down.
    pub fn is_key_pressed(&self, key: u8) -> (r: bool)
        requires
            self.wf(),
        ensures
            r == key_down(self@, key as int),
    {
        (key as usize) < NUM_KEYS && self.keys[key as usize]
    }

    /// The lowest key that is down, or `None` when no key is down.
    pub fn get_pressed_key(&self) -> (r: Option<u8>)
        requires
            self.wf(),
        ensures
            r == pressed_key(self@),
            r is None <==> forall|k: int| 0 <= k < NUM_KEYS ==> !self@[k],
            r matches Some(k) ==> k < NUM_KEYS && self@[k as int]
                && forall|j: int| 0 <= j < k ==> !self@[j],
    {
        let mut k: usize = 0;
        while k < NUM_KEYS
            invariant
                self.wf(),
                k <= NUM_KEYS,
                forall|j: int| 0 <= j < k ==> !self@[j],
                pressed_key(self@) == first_down_from(self@, k as int),
            decreases NUM_KEYS - k,
        {
            if self.keys[k] {
                return Some(k as u8);
            }
            k += 1;
        }
        None
    }
}

} // verus!
