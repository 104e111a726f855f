use vstd::prelude::*;

verus! {

/// The input processors a run can use.
#[derive(Debug, Clone, Copy, PartialEq, Eq, Structural)]
pub enum ProcessorKind {
    NoAcceleration,
    RawAccelLinear,
}

impl ProcessorKind {
    pub open spec fn id_text(self) -> Seq<char> {
        match self {
            ProcessorKind::NoAcceleration => "none"@,
            ProcessorKind::RawAccelLinear => "rawaccel_linear"@,
        }
    }

    pub open spec fn version_text(self) -> Seq<char> {
        match self {
            ProcessorKind::NoAcceleration => "1.0.0"@,
            ProcessorKind::RawAccelLinear => "1.2.0"@,
        }
    }

    /// The id stored with every trial that used this processor.
    pub fn id(self) -> (s: &'static str)
        ensures
            s@ == self.id_text(),
    {
        match self {
            ProcessorKind::NoAcceleration => "none",
            ProcessorKind::RawAccelLinear => "rawaccel_linear",
        }
    }

    /// The version stored with every trial that used this processor.
    pub fn version(self) -> (s: &'static str)
        ensures
            s@ == self.version_text(),
    {
        match self {
            ProcessorKind::NoAcceleration => "1.0.0",
            ProcessorKind::RawAccelLinear => "1.2.0",
        }
    }
}

/// The identity processor: counts pass through unchanged, so it has no
/// configuration to record.
#[derive(Debug, Clone, Copy, PartialEq, Eq, Structural)]
pub struct NoAcceleration;

impl NoAcceleration {
    pub fn id(&self) -> (s: &'static str)
        ensures
            s@ == ProcessorKind::NoAcceleration.id_text(),
    {
        ProcessorKind::NoAcceleration.id()
    }

    pub fn version(&self) -> (s: &'static str)
        ensures
            s@ == ProcessorKind::NoAcceleration.version_text(),
    {
        ProcessorKind::NoAcceleration.version()
    }

    /// Its configuration, as stored: the empty JSON object.
    pub fn config_json(&self) -> (s: String)
        ensures
            s@ == "{}"@,
    {
        String::from_str("{}")
    }
}

/// The processor named `id`: `none` or `rawaccel_linear`; any other id is
/// refused with a message naming it.
pub fn processor_kind(id: &str) -> (r: Result<ProcessorKind, String>)
    ensures
        match r {
            Ok(k) => k.id_text() == id@,
            Err(msg) => id@ != "none"@ && id@ != "rawaccel_linear"@ && msg@ == "unknown processor id: "@
                + id@,
        },
{
    let s = String::from_str(id);
    if s == String::from_str("none") {
        Ok(ProcessorKind::NoAcceleration)
    } else if s == String::from_str("rawaccel_linear") {
        Ok(ProcessorKind::RawAccelLinear)
    } else {
        Err(String::from_str("unknown processor id: ").concat(id))
    }
}

/// Where the Raw Accel cap applies.
#[derive(Debug, Clone, Copy, PartialEq, Eq, Structural)]
pub enum CapMode {
    Out,
    In,
    Io,
}

impl CapMode {
    pub open spec fn name(self) -> Seq<char> {
        match self {
            CapMode::Out => "out"@,
            CapMode::In => "in"@,
            CapMode::Io => "io"@,
        }
    }

    /// The name used in stored configurations.
    pub fn as_str(self) -> (s: &'static str)
        ensures
            s@ == self.name(),
    {
        match self {
            CapMode::Out => "out",
            CapMode::In => "in",
            CapMode::Io => "io",
        }
    }
}

/// The cap mode a stored configuration names: `io` and `in` are read as
/// such; anything else (or nothing) means `out`.
pub fn cap_mode_from_name(name: Option<&str>) -> (m: CapMode)
    ensures
        m == match name {
            Some(n) => if n@ == "io"@ {
                CapMode::Io
            } else if n@ == "in"@ {
                CapMode::In
            } else {
                CapMode::Out
            },
            None => CapMode::Out,
        },
{
    match name {
        Some(n) => {
            let s = String::from_str(n);
            if s == String::from_str("io") {
                CapMode::Io
            } else if s == String::from_str("in") {
                CapMode::In
            } else {
                CapMode::Out
            }
        },
        None => CapMode::Out,
    }
}

} // verus!
