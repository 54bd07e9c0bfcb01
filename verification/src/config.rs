use vstd::prelude::*;
use vstd::string::StrSliceExecFns;
use crate::profile::Profile;
use crate::valid_window::{spec_required_measurements, ValidWindow};

verus! {

/// A configuration document that the validation refused, with the reason.
#[derive(Debug)]
pub struct InvalidConfig {
    reason: String,
}

impl InvalidConfig {
    pub fn new(reason: String) -> (r: InvalidConfig)
        ensures
            r.spec_reason() == reason@,
    {
        InvalidConfig { reason }
    }

    pub closed spec fn spec_reason(&self) -> Seq<char> {
        self.reason@
    }

    pub fn reason(&self) -> (r: &String)
        ensures
            r@ == self.spec_reason(),
    {
        &self.reason
    }
}

/// The wire profile named in the device configuration.
#[derive(Clone, Copy, PartialEq, Eq, Structural, Debug)]
#[non_exhaustive]
pub enum LidarProfile {
    SingleReturn,
    DualReturn,
    LowData,
}

/// True when the two character sequences are the same string.
fn str_eq(s: &str, t: &str) -> (r: bool)
    ensures
        r == (s@ == t@),
{
    let n = s.unicode_len();
    if n != t.unicode_len() {
        assert(s@ != t@);
        return false;
    }
    let mut i: usize = 0;
    while i < n
        invariant
            i <= n,
            n == s@.len(),
            n == t@.len(),
            forall|j: int| 0 <= j < i ==> s@[j] == t@[j],
        decreases n - i,
    {
        if s.get_char(i) != t.get_char(i) {
            return false;
        }
        i = i + 1;
    }
    proof {
        assert(s@ =~= t@);
    }
    true
}

impl LidarProfile {
    /// The profile a configuration document names with this string.
    pub fn from_str(s: &str) -> (r: Result<LidarProfile, InvalidConfig>)
        ensures
            r == Ok::<LidarProfile, InvalidConfig>(LidarProfile::SingleReturn) <==> s@
                == "RNG19_RFL8_SIG16_NIR16"@,
            r == Ok::<LidarProfile, InvalidConfig>(LidarProfile::DualReturn) <==> s@
                == "RNG19_RFL8_SIG16_NIR16_DUAL"@,
            r == Ok::<LidarProfile, InvalidConfig>(LidarProfile::LowData) <==> s@
                == "RNG15_RFL8_NIR8"@,
            r is Err <==> (s@ != "RNG19_RFL8_SIG16_NIR16"@ && s@ != "RNG19_RFL8_SIG16_NIR16_DUAL"@
                && s@ != "RNG15_RFL8_NIR8"@),
    {
        proof {
            reveal_strlit("RNG19_RFL8_SIG16_NIR16");
            reveal_strlit("RNG19_RFL8_SIG16_NIR16_DUAL");
            reveal_strlit("RNG15_RFL8_NIR8");
            assert("RNG19_RFL8_SIG16_NIR16"@.len() == 22);
            assert("RNG19_RFL8_SIG16_NIR16_DUAL"@.len() == 27);
            assert("RNG15_RFL8_NIR8"@.len() == 15);
        }
        if str_eq(s, "RNG19_RFL8_SIG16_NIR16") {
            Ok(LidarProfile::SingleReturn)
        } else if str_eq(s, "RNG19_RFL8_SIG16_NIR16_DUAL") {
            Ok(LidarProfile::DualReturn)
        } else if str_eq(s, "RNG15_RFL8_NIR8") {
            Ok(LidarProfile::LowData)
        } else {
            Err(InvalidConfig::new(String::from_str("unknown lidar profile")))
        }
    }
}

/// The scan rate and horizontal resolution setting of the sensor.
#[derive(Clone, Copy, PartialEq, Eq, Structural, Debug)]
pub enum LidarMode {
    Mode512x10,
    Mode512x20,
    Mode1024x10,
    Mode1024x20,
    Mode2048x10,
}

impl LidarMode {
    /// Columns per rotation in this mode.
    pub fn horizontal_resolution(&self) -> (r: u16)
        ensures
            r == self.spec_horizontal_resolution(),
    {
        match self {
            LidarMode::Mode512x10 | LidarMode::Mode512x20 => 512,
            LidarMode::Mode1024x10 | LidarMode::Mode1024x20 => 1024,
            LidarMode::Mode2048x10 => 2048,
        }
    }

    pub open spec fn spec_horizontal_resolution(&self) -> u16 {
        match self {
            LidarMode::Mode512x10 | LidarMode::Mode512x20 => 512,
            LidarMode::Mode1024x10 | LidarMode::Mode1024x20 => 1024,
            LidarMode::Mode2048x10 => 2048,
        }
    }
}

impl Default for LidarProfile {
    fn default() -> (r: LidarProfile)
        ensures
            r == LidarProfile::SingleReturn,
    {
        LidarProfile::SingleReturn
    }
}

impl Default for LidarMode {
    fn default() -> (r: LidarMode)
        ensures
            r == LidarMode::Mode1024x10,
    {
        LidarMode::Mode1024x10
    }
}

/// A validated azimuth window refused at construction.
#[derive(Clone, Copy, PartialEq, Eq, Structural, Debug)]
pub enum ValidateConfigParamsError {
    InvalidRange,
}

/// An azimuth window in millidegrees, both ends at most a full turn.
#[derive(Clone, Copy, PartialEq, Eq, Debug)]
pub struct AzimuthWindow {
    window: [u32; 2],
}

impl AzimuthWindow {
    pub closed spec fn spec_window(&self) -> Seq<u32> {
        self.window@
    }

    /// Both components must be at most 360'000 millidegrees.
    pub fn new(window: [u32; 2]) -> (r: Result<AzimuthWindow, ValidateConfigParamsError>)
        ensures
            match r {
                Ok(w) => window@[0] <= 360_000 && window@[1] <= 360_000 && w.spec_window()
                    == window@,
                Err(e) => (window@[0] > 360_000 || window@[1] > 360_000) && e
                    == ValidateConfigParamsError::InvalidRange,
            },
    {
        if window[0] > 360_000 || window[1] > 360_000 {
            Err(ValidateConfigParamsError::InvalidRange)
        } else {
            Ok(AzimuthWindow { window })
        }
    }

    pub fn window(&self) -> (r: [u32; 2])
        ensures
            r@ == self.spec_window(),
    {
        self.window
    }

    /// Width of the window in millidegrees; a window whose start lies past
    /// its end wraps around the full turn.
    pub fn milli_angle_deg(&self) -> (r: u32)
        requires
            self.spec_window()[0] <= 360_000,
            self.spec_window()[1] <= 360_000,
        ensures
            r == self.spec_milli_angle_deg(),
    {
        if self.window[0] < self.window[1] {
            self.window[1] - self.window[0]
        } else {
            360_000 - self.window[1] + self.window[0]
        }
    }

    pub open spec fn spec_milli_angle_deg(&self) -> int {
        let w = self.spec_window();
        if w[0] < w[1] {
            w[1] - w[0]
        } else {
            360_000 - w[1] + w[0]
        }
    }
}

/// The optical signal multiplier setting, which trades azimuth coverage for
/// signal strength.
#[derive(Clone, Copy, PartialEq, Eq, Structural, Debug)]
pub enum SignalMultiplier {
    Quarter,
    Half,
    One,
    Two,
    Three,
}

impl SignalMultiplier {
    /// The widest azimuth window, in degrees, that the setting supports.
    pub fn maximum_supported_azimuth_angle_deg(&self) -> (r: u32)
        ensures
            r == self.spec_maximum_supported_azimuth_angle_deg(),
    {
        match self {
            SignalMultiplier::Quarter | SignalMultiplier::Half | SignalMultiplier::One => 360,
            SignalMultiplier::Two => 180,
            SignalMultiplier::Three => 120,
        }
    }

    pub open spec fn spec_maximum_supported_azimuth_angle_deg(&self) -> u32 {
        match self {
            SignalMultiplier::Quarter | SignalMultiplier::Half | SignalMultiplier::One => 360,
            SignalMultiplier::Two => 180,
            SignalMultiplier::Three => 120,
        }
    }
}

impl Default for SignalMultiplier {
    fn default() -> (r: SignalMultiplier)
        ensures
            r == SignalMultiplier::One,
    {
        SignalMultiplier::One
    }
}

/// The sensor settings the decoder logic reads: azimuth window, mode and
/// signal multiplier, validated against one another.
#[derive(Clone, Copy, PartialEq, Eq, Debug)]
pub struct ConfigParams {
    pub azimuth_window: AzimuthWindow,
    pub lidar_mode: LidarMode,
    pub signal_multiplier: SignalMultiplier,
}

impl ConfigParams {
    /// The azimuth window must fit what the signal multiplier supports.
    pub fn new(
        azimuth_window: AzimuthWindow,
        lidar_mode: LidarMode,
        signal_multiplier: SignalMultiplier,
    ) -> (r: Result<ConfigParams, InvalidConfig>)
        requires
            azimuth_window.spec_window()[0] <= 360_000,
            azimuth_window.spec_window()[1] <= 360_000,
        ensures
            match r {
                Ok(c) => {
                    &&& signal_multiplier.spec_maximum_supported_azimuth_angle_deg() * 1000
                        >= azimuth_window.spec_milli_angle_deg()
                    &&& c == (ConfigParams { azimuth_window, lidar_mode, signal_multiplier })
                },
                Err(_) => signal_multiplier.spec_maximum_supported_azimuth_angle_deg() * 1000
                    < azimuth_window.spec_milli_angle_deg(),
            },
    {
        let allowed_deg = signal_multiplier.maximum_supported_azimuth_angle_deg();
        let given_milli_deg = azimuth_window.milli_angle_deg();
        if allowed_deg * 1000 < given_milli_deg {
            Err(InvalidConfig::new(String::from_str("azimuth window too wide for the signal multiplier")))
        } else {
            Ok(ConfigParams { azimuth_window, lidar_mode, signal_multiplier })
        }
    }
}

/// The data-format section of a device configuration, as ingested.
#[derive(Debug)]
pub struct LidarDataFormat {
    pub columns_per_packet: u8,
    pub pixels_per_column: u8,
    pub columns_per_frame: u16,
    pub pixel_shift_by_row: Vec<i8>,
    pub column_window: (u16, u16),
    pub udp_profile_lidar: LidarProfile,
}

/// The data-format section validated against a wire profile, with the
/// column window resolved to packet slots.
#[derive(Clone, Debug)]
pub struct ValidLidarDataFormat {
    pub columns_per_frame: u16,
    pub pixel_shift_by_row: Vec<i8>,
    pub column_window: ValidWindow,
    pub udp_profile_lidar: LidarProfile,
}

impl ValidLidarDataFormat {
    /// Checks the format section against the wire profile: the column and
    /// layer counts must match, and the window must lie inside the rotation.
    pub fn new(value: LidarDataFormat, profile: &Profile) -> (r: Result<
        ValidLidarDataFormat,
        InvalidConfig,
    >)
        requires
            profile.wf(),
        ensures
            match r {
                Ok(v) => {
                    &&& value.pixels_per_column == profile.layers
                    &&& value.columns_per_packet == profile.columns
                    &&& value.column_window.0 < value.columns_per_frame
                    &&& value.column_window.1 < value.columns_per_frame
                    &&& v.columns_per_frame == value.columns_per_frame
                    &&& v.pixel_shift_by_row@ == value.pixel_shift_by_row@
                    &&& v.udp_profile_lidar == value.udp_profile_lidar
                    &&& v.column_window.wf()
                    &&& v.column_window.columns_per_packet == profile.columns
                    &&& v.column_window.start_measurement_id == value.column_window.0 as int
                        / profile.columns as int
                    &&& v.column_window.measurements_per_frame == value.columns_per_frame as int
                        / profile.columns as int
                    &&& v.column_window.required_measurements == spec_required_measurements(
                        value.column_window.0,
                        value.column_window.1,
                        value.columns_per_frame,
                        profile.columns,
                    )
                },
                Err(_) => value.pixels_per_column != profile.layers || value.columns_per_packet
                    != profile.columns || value.column_window.0 >= value.columns_per_frame
                    || value.column_window.1 >= value.columns_per_frame,
            },
    {
        if value.pixels_per_column as u16 != profile.layers {
            return Err(InvalidConfig::new(String::from_str("pixels_per_column does not match the profile")));
        }
        if value.columns_per_packet as u16 != profile.columns {
            return Err(InvalidConfig::new(String::from_str("columns_per_packet does not match the profile")));
        }
        if value.column_window.0 >= value.columns_per_frame || value.column_window.1
            >= value.columns_per_frame {
            return Err(InvalidConfig::new(String::from_str("column window lies outside the rotation")));
        }
        let column_window = ValidWindow::new(
            value.column_window,
            value.columns_per_frame,
            profile.columns,
        );
        Ok(
            ValidLidarDataFormat {
                columns_per_frame: value.columns_per_frame,
                pixel_shift_by_row: value.pixel_shift_by_row,
                column_window,
                udp_profile_lidar: value.udp_profile_lidar,
            },
        )
    }

    /// `(skip_first, take)` of the usable columns under this format's row
    /// shifts, aligned to `alignment` columns.
    pub fn calc_complete_cols_aligned(&self, alignment: usize) -> (r: (usize, usize))
        requires
            self.column_window.wf(),
            self.pixel_shift_by_row@.len() >= 1,
            alignment >= 1,
        ensures
            ({
                let (skip, take) = crate::valid_window::spec_complete_cols(
                    self.column_window.required_measurements as int
                        * self.column_window.columns_per_packet as int,
                    self.pixel_shift_by_row@,
                    alignment as int,
                );
                r.0 == skip && r.1 == take
            }),
    {
        self.column_window.calc_complete_cols_aligned(self.pixel_shift_by_row.as_slice(), alignment)
    }
}

} // verus!
