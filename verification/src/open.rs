//! Bringing an application forward: what the system is asked, and what its
//! answers mean.

use crate::os::interface::AppInterface;
use crate::os::macos::App;
use vstd::prelude::*;
use vstd::string::StringExecFns;

verus! {

/// Why an application could not be brought forward.
#[derive(Debug)]
pub enum OpenAppError {
    /// The system knows no application under this bundle identifier.
    AppNotFound { bundle_id: String },
    /// The system knows the application, installed at this path, and would not open it.
    SystemRefused { app_path: String },
}

/// Where the system keeps an application: the URL under which it opens it,
/// and the path of that URL where it has one.
pub struct AppLocation {
    pub url: String,
    pub path: Option<String>,
}

/// The path reported for a location: its own, or a fixed text where it has none.
pub open spec fn reported_path(location: AppLocation) -> Seq<char> {
    match location.path {
        Some(path) => path@,
        None => "<no path found>"@,
    }
}

/// What opening the application with this bundle identifier comes to, when
/// the system located it as `located` says and, where it did, answered the
/// request to open it with `launched`.
pub open spec fn open_outcome(
    bundle_id: Seq<char>,
    located: Option<AppLocation>,
    launched: bool,
    r: Result<(), OpenAppError>,
) -> bool {
    match located {
        None => r matches Err(OpenAppError::AppNotFound { bundle_id: id }) && id@ == bundle_id,
        Some(location) => if launched {
            r is Ok
        } else {
            r matches Err(OpenAppError::SystemRefused { app_path }) && app_path@ == reported_path(
                location,
            )
        },
    }
}

impl OpenAppError {
    /// The error in words.
    pub fn to_string(&self) -> (r: String)
        ensures
            match *self {
                OpenAppError::AppNotFound { bundle_id } => r@
                    == "Could not find app with bundle id '"@ + bundle_id@ + "'"@,
                OpenAppError::SystemRefused { app_path } => r@
                    == "System refused to open app at path '"@ + app_path@ + "'"@,
            },
    {
        match self {
            OpenAppError::AppNotFound { bundle_id } => {
                let mut out = String::from_str("Could not find app with bundle id '");
                out.append(bundle_id.as_str());
                out.append("'");
                out
            },
            OpenAppError::SystemRefused { app_path } => {
                let mut out = String::from_str("System refused to open app at path '");
                out.append(app_path.as_str());
                out.append("'");
                out
            },
        }
    }
}

/// Something that can be brought forward by asking the system two things:
/// where it is, and to open what is there.
pub trait Open {
    /// The identifier that `locate` is asked about.
    spec fn subject(&self) -> Seq<char>;

    /// Brings the application forward. `locate` is asked for the place of the
    /// application; where it has one, `launch` is asked to open what is there.
    fn open<L, O>(&self, locate: L, launch: O) -> (r: Result<(), OpenAppError>) where
        L: Fn(&str) -> Option<AppLocation>,
        O: Fn(&AppLocation) -> bool,

        requires
            forall|id: &str| call_requires(locate, (id,)),
            forall|location: &AppLocation| call_requires(launch, (location,)),
        ensures
            exists|id: &str, located: Option<AppLocation>, launched: bool|
                id@ == self.subject() && call_ensures(locate, (id,), located) && (located
                    matches Some(location) ==> call_ensures(launch, (&location,), launched))
                    && open_outcome(self.subject(), located, launched, r),
    ;
}

impl Open for App {
    open spec fn subject(&self) -> Seq<char> {
        self@
    }

    fn open<L, O>(&self, locate: L, launch: O) -> (r: Result<(), OpenAppError>) where
        L: Fn(&str) -> Option<AppLocation>,
        O: Fn(&AppLocation) -> bool,
     {
        let id = self.id();
        let located = locate(id);
        match located {
            None => {
                let r = Err(OpenAppError::AppNotFound { bundle_id: id.to_owned() });
                assert(call_ensures(locate, (id,), located) && open_outcome(
                    self.subject(),
                    located,
                    false,
                    r,
                ));
                r
            },
            Some(location) => {
                let launched = launch(&location);
                if launched {
                    let r = Ok(());
                    assert(call_ensures(locate, (id,), located) && open_outcome(
                        self.subject(),
                        located,
                        launched,
                        r,
                    ));
                    r
                } else {
                    let app_path = match &location.path {
                        Some(path) => path.clone(),
                        None => String::from_str("<no path found>"),
                    };
                    let r = Err(OpenAppError::SystemRefused { app_path });
                    assert(call_ensures(locate, (id,), located) && open_outcome(
                        self.subject(),
                        located,
                        launched,
                        r,
                    ));
                    r
                }
            },
        }
    }
}

} // verus!
