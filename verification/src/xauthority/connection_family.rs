//! The closed set of connection families an authority entry can carry, and
//! their numeric codes on disk.

use vstd::prelude::*;

verus! {

/// How an authority entry's address is to be interpreted. The set is closed:
/// an unrecognized numeric code is a parse failure, never a fallback variant.
#[derive(Debug, Clone, Copy, PartialEq, Eq, Structural)]
pub enum ConnectionFamily {
    /// Local non-network authentication.
    LocalHost,
    /// Kerberos 5 principal name.
    Krb5Principal,
    /// Not part of the X standard.
    Netname,
    /// Not part of the X standard.
    Local,
    Wild,
}

/// The numeric code of each family as stored on disk.
pub open spec fn spec_family_code(f: ConnectionFamily) -> u16 {
    match f {
        ConnectionFamily::LocalHost => 252,
        ConnectionFamily::Krb5Principal => 253,
        ConnectionFamily::Netname => 254,
        ConnectionFamily::Local => 256,
        ConnectionFamily::Wild => 65535,
    }
}

/// The family a numeric code resolves to, if any.
pub open spec fn spec_family_of(code: u16) -> Option<ConnectionFamily> {
    if code == 252 {
        Option::Some(ConnectionFamily::LocalHost)
    } else if code == 253 {
        Option::Some(ConnectionFamily::Krb5Principal)
    } else if code == 254 {
        Option::Some(ConnectionFamily::Netname)
    } else if code == 256 {
        Option::Some(ConnectionFamily::Local)
    } else if code == 65535 {
        Option::Some(ConnectionFamily::Wild)
    } else {
        Option::None
    }
}

impl ConnectionFamily {
    /// Resolves a raw family code; `None` exactly for the codes outside the
    /// closed set.
    pub fn try_from(raw_family: u16) -> (r: Option<ConnectionFamily>)
        ensures
            r == spec_family_of(raw_family),
            r matches Option::Some(f) ==> spec_family_code(f) == raw_family,
    {
        match raw_family {
            252 => Option::Some(ConnectionFamily::LocalHost),
            253 => Option::Some(ConnectionFamily::Krb5Principal),
            254 => Option::Some(ConnectionFamily::Netname),
            256 => Option::Some(ConnectionFamily::Local),
            65535 => Option::Some(ConnectionFamily::Wild),
            _ => Option::None,
        }
    }

    pub fn is_localhost(&self) -> (r: bool)
        ensures
            r == (*self == ConnectionFamily::LocalHost),
    {
        match *self {
            ConnectionFamily::LocalHost => true,
            _ => false,
        }
    }

    pub fn is_krb5principal(&self) -> (r: bool)
        ensures
            r == (*self == ConnectionFamily::Krb5Principal),
    {
        match *self {
            ConnectionFamily::Krb5Principal => true,
            _ => false,
        }
    }

    pub fn is_netname(&self) -> (r: bool)
        ensures
            r == (*self == ConnectionFamily::Netname),
    {
        match *self {
            ConnectionFamily::Netname => true,
            _ => false,
        }
    }

    pub fn is_local(&self) -> (r: bool)
        ensures
            r == (*self == ConnectionFamily::Local),
    {
        match *self {
            ConnectionFamily::Local => true,
            _ => false,
        }
    }

    pub fn is_wild(&self) -> (r: bool)
        ensures
            r == (*self == ConnectionFamily::Wild),
    {
        match *self {
            ConnectionFamily::Wild => true,
            _ => false,
        }
    }
}

} // verus!
