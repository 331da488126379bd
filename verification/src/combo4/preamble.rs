//! The process-wide preamble: the versions of the SDK and the driver, and the User-Agent.
//!
//! These are constant for the lifetime of the process, so they are never stored with an attempt or
//! an operation. A capture log holds one byte, [`PREAMBLE_ID`], that refers to the preamble, and
//! the full text is made only when diagnostics are built.

use vstd::prelude::*;
use vstd::string::*;

use crate::text::{concatenation, decimal, decimal_text, joined};

verus! {

/// The id by which every capture log refers to the one preamble of the process.
pub const PREAMBLE_ID: u8 = 0;

/// The version and User-Agent provenance of this process.
#[derive(Clone, Debug)]
pub struct Preamble {
    /// SDK crate name.
    pub sdk_name: &'static str,
    /// SDK version: major, minor, patch.
    pub sdk_ver: [u16; 3],
    /// Driver version: major, minor, patch.
    pub driver_ver: [u16; 3],
    /// User-Agent feature suffix; empty for none.
    pub ua_suffix: &'static str,
    /// Target OS.
    pub os: &'static str,
    /// Target architecture.
    pub arch: &'static str,
}

/// What a [`Preamble`] holds.
#[verifier::ext_equal]
pub struct PreambleModel {
    pub sdk_name: Seq<char>,
    pub sdk_ver: Seq<u16>,
    pub driver_ver: Seq<u16>,
    pub ua_suffix: Seq<char>,
    pub os: Seq<char>,
    pub arch: Seq<char>,
}

impl View for Preamble {
    type V = PreambleModel;

    open spec fn view(&self) -> PreambleModel {
        PreambleModel {
            sdk_name: self.sdk_name@,
            sdk_ver: self.sdk_ver@,
            driver_ver: self.driver_ver@,
            ua_suffix: self.ua_suffix@,
            os: self.os@,
            arch: self.arch@,
        }
    }
}

/// A version as `major.minor.patch`.
pub open spec fn version_of(v: Seq<u16>) -> Seq<char> {
    concatenation(
        seq![
            decimal(v[0] as nat),
            "."@,
            decimal(v[1] as nat),
            "."@,
            decimal(v[2] as nat),
        ],
    )
}

impl PreambleModel {
    /// The User-Agent without its suffix.
    pub open spec fn base_agent(self) -> Seq<char> {
        concatenation(
            seq![
                "azsdk-rust-"@,
                self.sdk_name,
                "/"@,
                version_of(self.sdk_ver),
                " ("@,
                self.os,
                "; "@,
                self.arch,
                ")"@,
            ],
        )
    }

    /// The full User-Agent.
    pub open spec fn agent(self) -> Seq<char> {
        if self.ua_suffix.len() == 0 {
            self.base_agent()
        } else {
            concatenation(seq![self.base_agent(), " "@, self.ua_suffix])
        }
    }
}

/// Renders a version as `major.minor.patch`.
fn version_text(v: &[u16; 3]) -> (s: String)
    ensures
        s@ == version_of(v@),
{
    let major = decimal_text(v[0] as u64);
    let minor = decimal_text(v[1] as u64);
    let patch = decimal_text(v[2] as u64);
    let parts: Vec<&str> = vec![major.as_str(), ".", minor.as_str(), ".", patch.as_str()];
    proof {
        assert(parts@.map_values(|p: &str| p@) =~= seq![
            decimal(v@[0] as nat),
            "."@,
            decimal(v@[1] as nat),
            "."@,
            decimal(v@[2] as nat),
        ]);
    }
    joined(&parts)
}

impl Preamble {
    /// The preamble of a process on this platform.
    pub fn on(os: &'static str, arch: &'static str) -> (p: Self)
        ensures
            p@ == (PreambleModel {
                sdk_name: "azure_data_cosmos"@,
                sdk_ver: seq![0u16, 1u16, 0u16],
                driver_ver: seq![0u16, 1u16, 0u16],
                ua_suffix: ""@,
                os: os@,
                arch: arch@,
            }),
    {
        let p = Preamble {
            sdk_name: "azure_data_cosmos",
            sdk_ver: [0, 1, 0],
            driver_ver: [0, 1, 0],
            ua_suffix: "",
            os,
            arch,
        };
        proof {
            assert(p@.sdk_ver =~= seq![0u16, 1u16, 0u16]);
            assert(p@.driver_ver =~= seq![0u16, 1u16, 0u16]);
        }
        p
    }

    /// Renders the SDK version as `major.minor.patch`.
    pub fn sdk_version(&self) -> (s: String)
        ensures
            s@ == version_of(self@.sdk_ver),
    {
        version_text(&self.sdk_ver)
    }

    /// Renders the driver version as `major.minor.patch`.
    pub fn driver_version(&self) -> (s: String)
        ensures
            s@ == version_of(self@.driver_ver),
    {
        version_text(&self.driver_ver)
    }

    /// Renders the full User-Agent in the SDK's canonical shape.
    pub fn user_agent(&self) -> (s: String)
        ensures
            s@ == self@.agent(),
    {
        let version = self.sdk_version();
        let parts: Vec<&str> = vec![
            "azsdk-rust-",
            self.sdk_name,
            "/",
            version.as_str(),
            " (",
            self.os,
            "; ",
            self.arch,
            ")",
        ];
        proof {
            assert(parts@.map_values(|p: &str| p@) =~= seq![
                "azsdk-rust-"@,
                self@.sdk_name,
                "/"@,
                version_of(self@.sdk_ver),
                " ("@,
                self@.os,
                "; "@,
                self@.arch,
                ")"@,
            ]);
        }
        let base = joined(&parts);
        if self.ua_suffix.unicode_len() == 0 {
            base
        } else {
            let suffixed: Vec<&str> = vec![base.as_str(), " ", self.ua_suffix];
            proof {
                assert(suffixed@.map_values(|p: &str| p@) =~= seq![
                    self@.base_agent(),
                    " "@,
                    self@.ua_suffix,
                ]);
            }
            joined(&suffixed)
        }
    }
}

} // verus!
