//! The resolved configuration and the resolution pipeline.

use vstd::prelude::*;

use crate::addr::check_host;
use crate::addr::host_port_chars;
use crate::addr::is_host_literal;
use crate::addr::is_socket_addr;
use crate::addr::lemma_socket_addr_of_host;
use crate::addr::SocketAddress;
use crate::errors::ConfigError;
use crate::num::parse_u16;
use crate::num::parse_u32;
use crate::num::parses_as_uint;
use crate::num::uint_body;
use crate::path::effective_path_spec;
use crate::path::is_absolute_path;
use crate::path::resolve_path;
use crate::path::FsProbes;
use crate::text::dec_val;

verus! {

/// The raw, loosely-typed flag values, as an argument parser hands them
/// over: string-valued flags are optional strings, presence flags are
/// booleans.  This narrow shape keeps the resolver independent of any
/// particular argument-parsing library.
pub struct RawFlags {
    /// The `address` flag value.
    pub address: Option<String>,
    /// The `port` flag value, still unparsed.
    pub port: Option<String>,
    /// The `cache` flag value, still unparsed.
    pub cache: Option<String>,
    /// The `path` flag value.
    pub path: Option<String>,
    /// Whether the `cors` flag is present.
    pub cors: bool,
    /// Whether the `unzipped` flag is present.
    pub unzipped: bool,
    /// Whether the `all` flag is present.
    pub all: bool,
    /// Whether the `no-ignore` flag is present.
    pub no_ignore: bool,
    /// Whether the `follow-links` flag is present.
    pub follow_links: bool,
}

/// The validated configuration, constructed once at startup and never
/// mutated.  `path` existed when the value was constructed; no handle is
/// held, so there is no guarantee it continues to exist.
#[derive(Debug, Clone, PartialEq, Eq)]
pub struct Args {
    /// The textual host or interface to bind; empty means unspecified.
    pub address: String,
    /// The TCP port.
    pub port: u16,
    /// A cache lifetime in seconds; its meaning is the consumer's.
    pub cache: u32,
    /// Whether cross-origin requests are allowed.
    pub cors: bool,
    /// Whether responses are compressed; the negation of `unzipped`.
    pub compress: bool,
    /// The absolute, canonical root path, existing at construction time.
    pub path: String,
    /// Whether hidden entries are listed.
    pub all: bool,
    /// Whether ignore files are honored; the negation of `no-ignore`.
    pub ignore: bool,
    /// Whether symbolic links are followed.
    pub follow_links: bool,
}

/// The characters of an optional flag value; absent means empty.
pub open spec fn opt_str(o: Option<String>) -> Seq<char> {
    match o {
        Some(s) => s@,
        None => Seq::<char>::empty(),
    }
}

impl Args {
    /// Resolve raw flag values into a validated configuration.
    ///
    /// Validation proceeds in a fixed order and stops at the first
    /// failure: the port, then the cache duration, then the path.  The
    /// boolean fields are fixed functions of flag presence; `compress`
    /// and `ignore` are the negations of `unzipped` and `no-ignore`.
    pub fn parse(flags: &RawFlags, probes: &FsProbes) -> (r: Result<Args, ConfigError>)
        ensures
            ({
                let pv = opt_str(flags.port);
                let cv = opt_str(flags.cache);
                let pa = effective_path_spec(opt_str(flags.path));
                let num_ok = parses_as_uint(pv, u16::MAX as int) && parses_as_uint(
                    cv,
                    u32::MAX as int,
                );
                &&& (!parses_as_uint(pv, u16::MAX as int) ==> (r matches Err(
                    ConfigError::InvalidArgument { value, target },
                ) && value@ == pv && target == crate::errors::IntKind::Unsigned16))
                &&& (parses_as_uint(pv, u16::MAX as int) && !parses_as_uint(cv, u32::MAX as int)
                    ==> (r matches Err(ConfigError::InvalidArgument { value, target })
                    && value@ == cv && target == crate::errors::IntKind::Unsigned32))
                &&& (num_ok && !probes.exists ==> (r matches Err(ConfigError::PathNotFound {
                    path,
                }) && path@ == pa))
                &&& (num_ok && probes.exists && !is_absolute_path(pa) && probes.cwd is None ==> (
                r matches Err(ConfigError::PathAccess { path, cause }) && path@ == pa && cause
                    == crate::errors::AccessCause::CurrentDirLookup))
                &&& (num_ok && probes.exists && !is_absolute_path(pa) && probes.cwd is Some
                    && probes.canonical is None ==> (r matches Err(ConfigError::PathAccess {
                    path,
                    cause,
                }) && path@ == pa && cause == crate::errors::AccessCause::Canonicalize))
                &&& (num_ok && probes.exists && (is_absolute_path(pa) || (probes.cwd is Some
                    && probes.canonical is Some)) ==> (r matches Ok(a)
                    && a.address@ == opt_str(flags.address)
                    && a.port as int == dec_val(uint_body(pv))
                    && a.cache as int == dec_val(uint_body(cv))
                    && a.cors == flags.cors
                    && a.compress == !flags.unzipped
                    && (is_absolute_path(pa) ==> a.path@ == pa)
                    && (!is_absolute_path(pa) ==> (probes.canonical matches Some(canon)
                        && a.path@ == canon@))
                    && a.all == flags.all
                    && a.ignore == !flags.no_ignore
                    && a.follow_links == flags.follow_links))
            }),
    {
        proof {
            reveal_strlit("");
        }
        let port_s: &str = match &flags.port {
            Some(s) => s.as_str(),
            None => "",
        };
        proof {
            assert(port_s@ =~= opt_str(flags.port));
        }
        let port = match parse_u16(port_s) {
            Ok(v) => v,
            Err(e) => {
                return Err(e);
            },
        };
        let cache_s: &str = match &flags.cache {
            Some(s) => s.as_str(),
            None => "",
        };
        proof {
            assert(cache_s@ =~= opt_str(flags.cache));
        }
        let cache = match parse_u32(cache_s) {
            Ok(v) => v,
            Err(e) => {
                return Err(e);
            },
        };
        let path_s: &str = match &flags.path {
            Some(s) => s.as_str(),
            None => "",
        };
        proof {
            assert(path_s@ =~= opt_str(flags.path));
        }
        let path = match resolve_path(path_s, probes) {
            Ok(p) => p,
            Err(e) => {
                return Err(e);
            },
        };
        let address = match &flags.address {
            Some(s) => s.clone(),
            None => String::new(),
        };
        Ok(
            Args {
                address,
                port,
                cache,
                cors: flags.cors,
                compress: !flags.unzipped,
                path,
                all: flags.all,
                ignore: !flags.no_ignore,
                follow_links: flags.follow_links,
            },
        )
    }

    /// Validate the stored host and port as a socket address.
    ///
    /// This is pure syntax checking of the combined `host:port` text; no
    /// name is looked up and no socket is created.  It succeeds exactly
    /// when that text is a syntactically valid socket address, which is
    /// the case exactly when the host is an IPv4 literal or a bracketed
    /// IPv6 literal; the port, coming from a 16-bit value, is always in
    /// range.  It is deterministic in the stored fields and can be called
    /// at any time after construction.
    pub fn address(&self) -> (r: Result<SocketAddress, ConfigError>)
        ensures
            r is Ok <==> is_socket_addr(host_port_chars(self.address@, self.port)),
            r is Ok <==> is_host_literal(self.address@),
            (r matches Ok(a) ==> a.host@ == self.address@ && a.port == self.port && a.wf()),
            (r matches Err(e) ==> (e matches ConfigError::InvalidAddress { host, port }
                && host@ == self.address@ && port == self.port)),
    {
        proof {
            lemma_socket_addr_of_host(self.address@, self.port);
        }
        if check_host(self.address.as_str()) {
            Ok(SocketAddress { host: self.address.clone(), port: self.port })
        } else {
            Err(ConfigError::InvalidAddress { host: self.address.clone(), port: self.port })
        }
    }
}

} // verus!
