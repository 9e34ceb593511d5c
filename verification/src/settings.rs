//! Persisted settings: shake preferences, the shelf's frame and the
//! device's identity on the LAN.

use vstd::prelude::*;
use crate::text::{decimal, hex_lower, push_decimal, push_hex_lower, string_of};

verus! {

pub const MIN_SENSITIVITY: u8 = 1;
pub const MAX_SENSITIVITY: u8 = 5;

pub open spec fn spec_clamp_sensitivity(sensitivity: u8) -> u8 {
    if sensitivity < MIN_SENSITIVITY {
        MIN_SENSITIVITY
    } else if sensitivity > MAX_SENSITIVITY {
        MAX_SENSITIVITY
    } else {
        sensitivity
    }
}

/// Brings a shake sensitivity into the supported range 1..=5.
pub fn clamp_sensitivity(sensitivity: u8) -> (r: u8)
    ensures
        r == spec_clamp_sensitivity(sensitivity),
        MIN_SENSITIVITY <= r <= MAX_SENSITIVITY,
        MIN_SENSITIVITY <= sensitivity <= MAX_SENSITIVITY ==> r == sensitivity,
{
    if sensitivity < MIN_SENSITIVITY {
        MIN_SENSITIVITY
    } else if sensitivity > MAX_SENSITIVITY {
        MAX_SENSITIVITY
    } else {
        sensitivity
    }
}

/// Clamping is idempotent, and it keeps the order of sensitivities.
pub proof fn lemma_clamp_sensitivity(a: u8, b: u8)
    ensures
        spec_clamp_sensitivity(spec_clamp_sensitivity(a)) == spec_clamp_sensitivity(a),
        a <= b ==> spec_clamp_sensitivity(a) <= spec_clamp_sensitivity(b),
{
}


pub const SIGN_BIT: u64 = 0x8000_0000_0000_0000;
pub const MAGNITUDE_MASK: u64 = 0x7fff_ffff_ffff_ffff;
pub const EXPONENT_MASK: u64 = 0x7ff0_0000_0000_0000;
pub const MANTISSA_MASK: u64 = 0x000f_ffff_ffff_ffff;

/// `f64::is_finite` on the bits of a binary64 value: the exponent is not
/// all ones.
pub open spec fn is_finite_bits(b: u64) -> bool {
    b & EXPONENT_MASK != EXPONENT_MASK
}

/// `f64::is_nan` on the bits: all-ones exponent with a nonzero mantissa.
pub open spec fn is_nan_bits(b: u64) -> bool {
    b & EXPONENT_MASK == EXPONENT_MASK && b & MANTISSA_MASK != 0
}

/// `x > 0.0` on the bits: not NaN, sign clear, and not zero.
pub open spec fn is_positive_bits(b: u64) -> bool {
    !is_nan_bits(b) && b & SIGN_BIT == 0 && b & MAGNITUDE_MASK != 0
}

/// `a == b` for two binary64 values given by their bits: NaN equals
/// nothing, the two zeros are equal, anything else is equal to itself only.
pub open spec fn f64_bits_eq(a: u64, b: u64) -> bool {
    !is_nan_bits(a) && !is_nan_bits(b) && (a == b || (a & MAGNITUDE_MASK == 0 && b
        & MAGNITUDE_MASK == 0))
}

fn f64_bits_eq_exec(a: u64, b: u64) -> (r: bool)
    ensures
        r == f64_bits_eq(a, b),
{
    let a_nan = a & EXPONENT_MASK == EXPONENT_MASK && a & MANTISSA_MASK != 0;
    let b_nan = b & EXPONENT_MASK == EXPONENT_MASK && b & MANTISSA_MASK != 0;
    !a_nan && !b_nan && (a == b || (a & MAGNITUDE_MASK == 0 && b & MAGNITUDE_MASK == 0))
}

/// Where the shelf panel stands on screen and how large it is. Each field
/// holds the IEEE-754 binary64 bits (`f64::to_bits`) of a coordinate in
/// points, so that the rules below are those of `f64`.
#[derive(Clone, Copy, Debug)]
pub struct ShelfFrame {
    pub x: u64,
    pub y: u64,
    pub width: u64,
    pub height: u64,
}

impl ShelfFrame {
    /// A frame is usable when every coordinate is finite and the size is
    /// positive.
    pub open spec fn valid(self) -> bool {
        &&& is_finite_bits(self.x)
        &&& is_finite_bits(self.y)
        &&& is_finite_bits(self.width)
        &&& is_finite_bits(self.height)
        &&& is_positive_bits(self.width)
        &&& is_positive_bits(self.height)
    }

    /// Two frames compare equal as `f64` coordinates do.
    pub open spec fn same(self, other: ShelfFrame) -> bool {
        &&& f64_bits_eq(self.x, other.x)
        &&& f64_bits_eq(self.y, other.y)
        &&& f64_bits_eq(self.width, other.width)
        &&& f64_bits_eq(self.height, other.height)
    }

    pub fn is_valid(self) -> (b: bool)
        ensures
            b == self.valid(),
    {
        let finite = self.x & EXPONENT_MASK != EXPONENT_MASK && self.y & EXPONENT_MASK
            != EXPONENT_MASK && self.width & EXPONENT_MASK != EXPONENT_MASK && self.height
            & EXPONENT_MASK != EXPONENT_MASK;
        let width_positive = !(self.width & EXPONENT_MASK == EXPONENT_MASK && self.width
            & MANTISSA_MASK != 0) && self.width & SIGN_BIT == 0 && self.width & MAGNITUDE_MASK != 0;
        let height_positive = !(self.height & EXPONENT_MASK == EXPONENT_MASK && self.height
            & MANTISSA_MASK != 0) && self.height & SIGN_BIT == 0 && self.height & MAGNITUDE_MASK
            != 0;
        finite && width_positive && height_positive
    }

    /// Whether two frames are equal as `f64` coordinates.
    pub fn same_frame(&self, other: &ShelfFrame) -> (b: bool)
        ensures
            b == self.same(*other),
    {
        f64_bits_eq_exec(self.x, other.x) && f64_bits_eq_exec(self.y, other.y) && f64_bits_eq_exec(
            self.width,
            other.width,
        ) && f64_bits_eq_exec(self.height, other.height)
    }
}

/// The persisted settings.
#[derive(Debug)]
pub struct AppSettings {
    pub shake_enabled: bool,
    pub shake_sensitivity: u8,
    pub shelf_frame: Option<ShelfFrame>,
    pub device_id: String,
    pub device_name: String,
}

impl AppSettings {
    /// A copy of the settings.
    pub fn duplicate(&self) -> (r: AppSettings)
        ensures
            r == *self,
    {
        AppSettings {
            shake_enabled: self.shake_enabled,
            shake_sensitivity: self.shake_sensitivity,
            shelf_frame: self.shelf_frame,
            device_id: self.device_id.clone(),
            device_name: self.device_name.clone(),
        }
    }

    pub open spec fn with_shake_enabled(self, enabled: bool) -> AppSettings {
        AppSettings { shake_enabled: enabled, ..self }
    }

    pub open spec fn with_shake_sensitivity(self, sensitivity: u8) -> AppSettings {
        AppSettings { shake_sensitivity: sensitivity, ..self }
    }

    pub open spec fn with_shelf_frame(self, frame: ShelfFrame) -> AppSettings {
        AppSettings { shelf_frame: Some(frame), ..self }
    }

    /// What the store keeps of them: a sensitivity in range and a usable
    /// frame, if any.
    pub open spec fn normalized(self) -> bool {
        &&& MIN_SENSITIVITY <= self.shake_sensitivity <= MAX_SENSITIVITY
        &&& self.shelf_frame matches Some(f) ==> f.valid()
    }
}

impl Default for AppSettings {
    /// Shake on at the middle sensitivity, no frame, no identity yet.
    fn default() -> (s: AppSettings)
        ensures
            s.shake_enabled,
            s.shake_sensitivity == 3,
            s.shelf_frame is None,
            s.device_id@.len() == 0,
            s.device_name@.len() == 0,
    {
        AppSettings {
            shake_enabled: true,
            shake_sensitivity: 3,
            shelf_frame: None,
            device_id: String::new(),
            device_name: String::new(),
        }
    }
}

/// The settings that a store makes of what it read: the sensitivity
/// clamped, an unusable frame dropped, a missing identity filled in.
pub open spec fn loaded_settings(stored: AppSettings, fresh_id: String, fresh_name: String) -> AppSettings {
    AppSettings {
        shake_enabled: stored.shake_enabled,
        shake_sensitivity: spec_clamp_sensitivity(stored.shake_sensitivity),
        shelf_frame: match stored.shelf_frame {
            Some(f) => if f.valid() {
                Some(f)
            } else {
                None
            },
            None => None,
        },
        device_id: if stored.device_id@.len() == 0 {
            fresh_id
        } else {
            stored.device_id
        },
        device_name: if stored.device_name@.len() == 0 {
            fresh_name
        } else {
            stored.device_name
        },
    }
}

/// Loading keeps what the user chose. The shake switch stays as stored; a
/// sensitivity in 1..=5, a usable frame, a device id and a device name that
/// are not empty are kept as they are. Only what is out of range, unusable
/// or missing changes: a sensitivity below 1 becomes 1 and one above 5
/// becomes 5, an unusable frame is dropped, and a missing id or name is the
/// fresh one.
pub proof fn lemma_load_keeps_preferences(stored: AppSettings, fresh_id: String, fresh_name: String)
    ensures
        ({
            let l = loaded_settings(stored, fresh_id, fresh_name);
            &&& l.shake_enabled == stored.shake_enabled
            &&& 1 <= stored.shake_sensitivity <= 5 ==> l.shake_sensitivity
                == stored.shake_sensitivity
            &&& stored.shake_sensitivity < 1 ==> l.shake_sensitivity == 1
            &&& stored.shake_sensitivity > 5 ==> l.shake_sensitivity == 5
            &&& stored.shelf_frame is Some && stored.shelf_frame.unwrap().valid() ==> l.shelf_frame
                == stored.shelf_frame
            &&& stored.shelf_frame is Some && !stored.shelf_frame.unwrap().valid()
                ==> l.shelf_frame is None
            &&& stored.shelf_frame is None ==> l.shelf_frame is None
            &&& stored.device_id@.len() > 0 ==> l.device_id == stored.device_id
            &&& stored.device_id@.len() == 0 ==> l.device_id == fresh_id
            &&& stored.device_name@.len() > 0 ==> l.device_name == stored.device_name
            &&& stored.device_name@.len() == 0 ==> l.device_name == fresh_name
        }),
{
}

/// Loading what was loaded changes nothing, once the identity is complete:
/// the settings a store holds come back the same after a restart.
pub proof fn lemma_load_twice(stored: AppSettings, fresh_id: String, fresh_name: String, id2: String, name2: String)
    requires
        fresh_id@.len() > 0,
        fresh_name@.len() > 0,
    ensures
        loaded_settings(loaded_settings(stored, fresh_id, fresh_name), id2, name2) == loaded_settings(
            stored,
            fresh_id,
            fresh_name,
        ),
{
}

/// `save` can report success when handed these settings for this path.
pub open spec fn saved<F: FnOnce(&String, &AppSettings) -> Result<(), String>>(
    save: F,
    path: String,
    settings: AppSettings,
) -> bool {
    exists|res: Result<(), String>| res is Ok && save.ensures((&path, &settings), res)
}

/// `==` on `f64` values given by their bits: a value that is not NaN
/// equals itself, equality is symmetric, NaN equals nothing, and a value
/// other than a zero equals only the value with the very same bits.
pub proof fn lemma_f64_bits_eq(a: u64, b: u64)
    ensures
        !is_nan_bits(a) ==> f64_bits_eq(a, a),
        f64_bits_eq(a, b) == f64_bits_eq(b, a),
        is_nan_bits(a) ==> !f64_bits_eq(a, b),
        f64_bits_eq(a, b) && a & MAGNITUDE_MASK != 0 ==> a == b,
{
}

/// Two usable frames are the same frame exactly when x and y compare equal
/// as `f64` values and the width and the height are the very same: a frame
/// of another size is never taken for the stored one. A usable frame is
/// the same as itself.
pub proof fn lemma_same_frame(a: ShelfFrame, b: ShelfFrame)
    requires
        a.valid(),
        b.valid(),
    ensures
        a.same(b) <==> (f64_bits_eq(a.x, b.x) && f64_bits_eq(a.y, b.y) && a.width == b.width
            && a.height == b.height),
        a.same(a),
{
}

/// The settings held in memory, with the path they are saved to.
pub struct SettingsStore {
    path: String,
    settings: AppSettings,
}

impl SettingsStore {
    pub closed spec fn path(&self) -> String {
        self.path
    }

    pub closed spec fn current(&self) -> AppSettings {
        self.settings
    }

    /// Makes a store of the settings read from `path` (the defaults when
    /// there were none). A missing device id or name is replaced by
    /// `fresh_device_id` or `fresh_device_name`. The flag says whether
    /// either was missing, that is, whether the new identity is to be saved
    /// (once, ignoring a failure); when both were present nothing is to be
    /// saved.
    pub fn load(
        path: String,
        stored: AppSettings,
        fresh_device_id: String,
        fresh_device_name: String,
    ) -> (r: (SettingsStore, bool))
        ensures
            r.0.path() == path,
            r.0.current() == loaded_settings(stored, fresh_device_id, fresh_device_name),
            r.0.current().normalized(),
            r.1 == (stored.device_id@.len() == 0 || stored.device_name@.len() == 0),
            r.0.current().shake_enabled == stored.shake_enabled,
            MIN_SENSITIVITY <= stored.shake_sensitivity <= MAX_SENSITIVITY
                ==> r.0.current().shake_sensitivity == stored.shake_sensitivity,
            stored.shelf_frame is Some && stored.shelf_frame.unwrap().valid()
                ==> r.0.current().shelf_frame == stored.shelf_frame,
            stored.device_id@.len() > 0 ==> r.0.current().device_id == stored.device_id,
            stored.device_name@.len() > 0 ==> r.0.current().device_name == stored.device_name,
    {
        let generated = stored.device_id.as_str().is_empty() || stored.device_name.as_str().is_empty();
        let frame = match stored.shelf_frame {
            Some(f) => if f.is_valid() {
                Some(f)
            } else {
                None
            },
            None => None,
        };
        let device_id = if stored.device_id.as_str().is_empty() {
            fresh_device_id
        } else {
            stored.device_id
        };
        let device_name = if stored.device_name.as_str().is_empty() {
            fresh_device_name
        } else {
            stored.device_name
        };
        let settings = AppSettings {
            shake_enabled: stored.shake_enabled,
            shake_sensitivity: clamp_sensitivity(stored.shake_sensitivity),
            shelf_frame: frame,
            device_id,
            device_name,
        };
        (SettingsStore { path, settings }, generated)
    }

    /// Saves the current settings through `save` and returns what it
    /// returned; the settings stay as they are.
    pub fn save_with<F: FnOnce(&String, &AppSettings) -> Result<(), String>>(&self, save: F) -> (r: Result<(), String>)
        requires
            save.requires((&self.path(), &self.current())),
        ensures
            save.ensures((&self.path(), &self.current()), r),
    {
        save(&self.path, &self.settings)
    }

    /// A copy of the current settings.
    pub fn settings(&self) -> (s: AppSettings)
        ensures
            s == self.current(),
    {
        self.settings.duplicate()
    }

    /// Turns the shake gesture on or off and saves; on a failed save the
    /// setting is put back and the error returned.
    pub fn set_shake_enabled<F: FnOnce(&String, &AppSettings) -> Result<(), String>>(
        &mut self,
        enabled: bool,
        save: F,
    ) -> (r: Result<AppSettings, String>)
        requires
            save.requires((&old(self).path(), &old(self).current().with_shake_enabled(enabled))),
        ensures
            final(self).path() == old(self).path(),
            old(self).current().normalized() ==> final(self).current().normalized(),
            ({
                let updated = old(self).current().with_shake_enabled(enabled);
                match r {
                    Ok(s) => {
                        &&& saved(save, old(self).path(), updated)
                        &&& final(self).current() == updated
                        &&& s == updated
                    },
                    Err(e) => {
                        &&& save.ensures((&old(self).path(), &updated), Err(e))
                        &&& final(self).current() == old(self).current()
                    },
                }
            }),
    {
        let previous = self.settings.shake_enabled;
        self.settings.shake_enabled = enabled;
        match save(&self.path, &self.settings) {
            Err(error) => {
                self.settings.shake_enabled = previous;
                Err(error)
            },
            Ok(()) => Ok(self.settings()),
        }
    }

    /// Sets the shake sensitivity (clamped to 1..=5) and saves; on a failed
    /// save the setting is put back and the error returned.
    pub fn set_shake_sensitivity<F: FnOnce(&String, &AppSettings) -> Result<(), String>>(
        &mut self,
        sensitivity: u8,
        save: F,
    ) -> (r: Result<AppSettings, String>)
        requires
            save.requires((&old(self).path(), &old(self).current().with_shake_sensitivity(spec_clamp_sensitivity(sensitivity)))),
        ensures
            final(self).path() == old(self).path(),
            old(self).current().normalized() ==> final(self).current().normalized(),
            ({
                let updated = old(self).current().with_shake_sensitivity(spec_clamp_sensitivity(sensitivity));
                match r {
                    Ok(s) => {
                        &&& saved(save, old(self).path(), updated)
                        &&& final(self).current() == updated
                        &&& s == updated
                    },
                    Err(e) => {
                        &&& save.ensures((&old(self).path(), &updated), Err(e))
                        &&& final(self).current() == old(self).current()
                    },
                }
            }),
    {
        let previous = self.settings.shake_sensitivity;
        self.settings.shake_sensitivity = clamp_sensitivity(sensitivity);
        match save(&self.path, &self.settings) {
            Err(error) => {
                self.settings.shake_sensitivity = previous;
                Err(error)
            },
            Ok(()) => Ok(self.settings()),
        }
    }

    /// Whether `set_shelf_frame(frame, ..)` leaves the settings as they are
    /// without saving: the frame is unusable, or it is the stored one.
    pub open spec fn frame_unchanged(&self, frame: ShelfFrame) -> bool {
        !frame.valid() || (self.current().shelf_frame matches Some(f) && f.same(frame))
    }

    /// No frame is stored, or the stored one has another width or height
    /// than `frame`.
    pub open spec fn is_new_size(&self, frame: ShelfFrame) -> bool {
        match self.current().shelf_frame {
            Some(f) => f.width != frame.width || f.height != frame.height,
            None => true,
        }
    }

    /// A usable frame of another size than the stored one is never taken
    /// for it: `set_shelf_frame` stores it and saves.
    pub proof fn lemma_resized_frame_is_saved(&self, frame: ShelfFrame)
        requires
            frame.valid(),
            self.is_new_size(frame),
        ensures
            !self.frame_unchanged(frame),
    {
    }

    /// Remembers where the shelf panel stands and saves. An unusable frame,
    /// or the frame already stored, changes nothing and saves nothing; on a
    /// failed save the old frame is put back and the error returned.
    pub fn set_shelf_frame<F: FnOnce(&String, &AppSettings) -> Result<(), String>>(
        &mut self,
        frame: ShelfFrame,
        save: F,
    ) -> (r: Result<(), String>)
        requires
            !old(self).frame_unchanged(frame) ==> save.requires((&old(self).path(), &old(self).current().with_shelf_frame(frame))),
        ensures
            final(self).path() == old(self).path(),
            old(self).current().normalized() ==> final(self).current().normalized(),
            old(self).frame_unchanged(frame) ==> r is Ok && final(self).current() == old(self).current(),
            frame.valid() && old(self).is_new_size(frame) ==> (r is Ok ==> final(self).current().shelf_frame
                == Some(frame)),
            !old(self).frame_unchanged(frame) ==> ({
                let updated = old(self).current().with_shelf_frame(frame);
                match r {
                    Ok(()) => {
                        &&& saved(save, old(self).path(), updated)
                        &&& final(self).current() == updated
                    },
                    Err(e) => {
                        &&& save.ensures((&old(self).path(), &updated), Err(e))
                        &&& final(self).current() == old(self).current()
                    },
                }
            }),
    {
        if !frame.is_valid() {
            return Ok(());
        }
        if let Some(current) = &self.settings.shelf_frame {
            if current.same_frame(&frame) {
                return Ok(());
            }
        }
        let previous = self.settings.shelf_frame;
        self.settings.shelf_frame = Some(frame);
        match save(&self.path, &self.settings) {
            Err(error) => {
                self.settings.shelf_frame = previous;
                Err(error)
            },
            Ok(()) => Ok(()),
        }
    }
}

/// A device id of the form `<process id>-<nanoseconds, lower-case hex>`.
pub fn generate_device_id(process_id: u32, unix_nanos: u128) -> (id: String)
    ensures
        id@ == decimal(process_id as nat) + seq!['-'] + hex_lower(unix_nanos as nat),
        id@.len() > 0,
{
    let mut out: Vec<char> = Vec::new();
    push_decimal(&mut out, process_id as u64);
    out.push('-');
    push_hex_lower(&mut out, unix_nanos);
    string_of(&out)
}

/// The device's default name: the `COMPUTERNAME` variable, else
/// `HOSTNAME`, else "DropAir".
pub fn default_device_name(computer_name: Option<String>, host_name: Option<String>) -> (name: String)
    ensures
        name@ == match (computer_name, host_name) {
            (Some(c), _) => c@,
            (None, Some(h)) => h@,
            (None, None) => "DropAir"@,
        },
{
    match computer_name {
        Some(c) => c,
        None => match host_name {
            Some(h) => h,
            None => String::from_str("DropAir"),
        },
    }
}

} // verus!
