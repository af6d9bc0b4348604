use vstd::prelude::*;
use crate::source::Source;
use crate::text::opt_string_view;

verus! {

/// The settings of the program.
#[derive(Clone, Debug)]
pub struct Config {
    pub pocket: PocketConfiguration,
    pub sentry: Option<SentryConfiguration>,
    pub sources: Vec<Source>,
}

/// The Pocket application to act as.
#[derive(Clone, Debug)]
pub struct PocketConfiguration {
    pub consumer: String,
}

/// Where to report errors.
#[derive(Clone, Debug)]
pub struct SentryConfiguration {
    pub dsn: Option<String>,
}

/// Whether error reporting starts, and if not, why.
#[derive(Clone, Debug)]
pub enum SentrySetup {
    /// Start error reporting to this address.
    Start { dsn: String },
    /// The address is set but empty.
    EmptyDsn,
    /// The reporting settings name no address.
    DsnNotSet,
    /// There are no reporting settings.
    NotConfigured,
}

impl Config {
    /// The reporting address of the settings, if they hold one.
    pub open spec fn dsn_setting(&self) -> Option<Option<Seq<char>>> {
        match self.sentry {
            Some(s) => Some(opt_string_view(s.dsn)),
            None => None,
        }
    }

    /// Error reporting starts exactly when the settings give a non-empty address.
    pub fn sentry_setup(&self) -> (setup: SentrySetup)
        ensures
            match self.dsn_setting() {
                Some(Some(dsn)) => if dsn.len() > 0 {
                    setup matches SentrySetup::Start { dsn: d } && d@ == dsn
                } else {
                    setup is EmptyDsn
                },
                Some(None) => setup is DsnNotSet,
                None => setup is NotConfigured,
            },
    {
        match &self.sentry {
            Some(s) => match &s.dsn {
                Some(dsn) => {
                    if dsn.as_str().is_empty() {
                        SentrySetup::EmptyDsn
                    } else {
                        SentrySetup::Start { dsn: dsn.clone() }
                    }
                },
                None => SentrySetup::DsnNotSet,
            },
            None => SentrySetup::NotConfigured,
        }
    }
}

} // verus!
