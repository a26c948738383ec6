//! Detect built in packages for node declared as ESM imports
//! or CommonJS require expressions.
//!
//! The lists are those of `require('module').builtinModules` for each
//! supported version of node.
use vstd::prelude::*;

use crate::text::str_eq;

verus! {

/// Whether a name is in the list of built in packages for node@12.
pub open spec fn node_12_package(s: Seq<char>) -> bool {
    s == "_http_agent"@ ||
    s == "_http_client"@ ||
    s == "_http_common"@ ||
    s == "_http_incoming"@ ||
    s == "_http_outgoing"@ ||
    s == "_http_server"@ ||
    s == "_stream_duplex"@ ||
    s == "_stream_passthrough"@ ||
    s == "_stream_readable"@ ||
    s == "_stream_transform"@ ||
    s == "_stream_wrap"@ ||
    s == "_stream_writable"@ ||
    s == "_tls_common"@ ||
    s == "_tls_wrap"@ ||
    s == "assert"@ ||
    s == "async_hooks"@ ||
    s == "buffer"@ ||
    s == "child_process"@ ||
    s == "cluster"@ ||
    s == "console"@ ||
    s == "constants"@ ||
    s == "crypto"@ ||
    s == "dgram"@ ||
    s == "dns"@ ||
    s == "domain"@ ||
    s == "events"@ ||
    s == "fs"@ ||
    s == "http"@ ||
    s == "http2"@ ||
    s == "https"@ ||
    s == "inspector"@ ||
    s == "module"@ ||
    s == "net"@ ||
    s == "os"@ ||
    s == "path"@ ||
    s == "perf_hooks"@ ||
    s == "process"@ ||
    s == "punycode"@ ||
    s == "querystring"@ ||
    s == "readline"@ ||
    s == "repl"@ ||
    s == "stream"@ ||
    s == "string_decoder"@ ||
    s == "sys"@ ||
    s == "timers"@ ||
    s == "tls"@ ||
    s == "trace_events"@ ||
    s == "tty"@ ||
    s == "url"@ ||
    s == "util"@ ||
    s == "v8"@ ||
    s == "vm"@ ||
    s == "worker_threads"@ ||
    s == "zlib"@
}

/// Membership in the list of built in packages for node@12.
fn in_node_12(s: &str) -> (r: bool)
    ensures
        r <==> node_12_package(s@),
{
    str_eq(s, "_http_agent") ||
    str_eq(s, "_http_client") ||
    str_eq(s, "_http_common") ||
    str_eq(s, "_http_incoming") ||
    str_eq(s, "_http_outgoing") ||
    str_eq(s, "_http_server") ||
    str_eq(s, "_stream_duplex") ||
    str_eq(s, "_stream_passthrough") ||
    str_eq(s, "_stream_readable") ||
    str_eq(s, "_stream_transform") ||
    str_eq(s, "_stream_wrap") ||
    str_eq(s, "_stream_writable") ||
    str_eq(s, "_tls_common") ||
    str_eq(s, "_tls_wrap") ||
    str_eq(s, "assert") ||
    str_eq(s, "async_hooks") ||
    str_eq(s, "buffer") ||
    str_eq(s, "child_process") ||
    str_eq(s, "cluster") ||
    str_eq(s, "console") ||
    str_eq(s, "constants") ||
    str_eq(s, "crypto") ||
    str_eq(s, "dgram") ||
    str_eq(s, "dns") ||
    str_eq(s, "domain") ||
    str_eq(s, "events") ||
    str_eq(s, "fs") ||
    str_eq(s, "http") ||
    str_eq(s, "http2") ||
    str_eq(s, "https") ||
    str_eq(s, "inspector") ||
    str_eq(s, "module") ||
    str_eq(s, "net") ||
    str_eq(s, "os") ||
    str_eq(s, "path") ||
    str_eq(s, "perf_hooks") ||
    str_eq(s, "process") ||
    str_eq(s, "punycode") ||
    str_eq(s, "querystring") ||
    str_eq(s, "readline") ||
    str_eq(s, "repl") ||
    str_eq(s, "stream") ||
    str_eq(s, "string_decoder") ||
    str_eq(s, "sys") ||
    str_eq(s, "timers") ||
    str_eq(s, "tls") ||
    str_eq(s, "trace_events") ||
    str_eq(s, "tty") ||
    str_eq(s, "url") ||
    str_eq(s, "util") ||
    str_eq(s, "v8") ||
    str_eq(s, "vm") ||
    str_eq(s, "worker_threads") ||
    str_eq(s, "zlib")
}

/// Whether a name is in the list of built in packages for node@14.
pub open spec fn node_14_package(s: Seq<char>) -> bool {
    s == "_http_agent"@ ||
    s == "_http_client"@ ||
    s == "_http_common"@ ||
    s == "_http_incoming"@ ||
    s == "_http_outgoing"@ ||
    s == "_http_server"@ ||
    s == "_stream_duplex"@ ||
    s == "_stream_passthrough"@ ||
    s == "_stream_readable"@ ||
    s == "_stream_transform"@ ||
    s == "_stream_wrap"@ ||
    s == "_stream_writable"@ ||
    s == "_tls_common"@ ||
    s == "_tls_wrap"@ ||
    s == "assert"@ ||
    s == "async_hooks"@ ||
    s == "buffer"@ ||
    s == "child_process"@ ||
    s == "cluster"@ ||
    s == "console"@ ||
    s == "constants"@ ||
    s == "crypto"@ ||
    s == "dgram"@ ||
    s == "diagnostics_channel"@ ||
    s == "dns"@ ||
    s == "domain"@ ||
    s == "events"@ ||
    s == "fs"@ ||
    s == "fs/promises"@ ||
    s == "http"@ ||
    s == "http2"@ ||
    s == "https"@ ||
    s == "inspector"@ ||
    s == "module"@ ||
    s == "net"@ ||
    s == "os"@ ||
    s == "path"@ ||
    s == "perf_hooks"@ ||
    s == "process"@ ||
    s == "punycode"@ ||
    s == "querystring"@ ||
    s == "readline"@ ||
    s == "repl"@ ||
    s == "stream"@ ||
    s == "string_decoder"@ ||
    s == "sys"@ ||
    s == "timers"@ ||
    s == "tls"@ ||
    s == "trace_events"@ ||
    s == "tty"@ ||
    s == "url"@ ||
    s == "util"@ ||
    s == "v8"@ ||
    s == "vm"@ ||
    s == "worker_threads"@ ||
    s == "zlib"@
}

/// Membership in the list of built in packages for node@14.
fn in_node_14(s: &str) -> (r: bool)
    ensures
        r <==> node_14_package(s@),
{
    str_eq(s, "_http_agent") ||
    str_eq(s, "_http_client") ||
    str_eq(s, "_http_common") ||
    str_eq(s, "_http_incoming") ||
    str_eq(s, "_http_outgoing") ||
    str_eq(s, "_http_server") ||
    str_eq(s, "_stream_duplex") ||
    str_eq(s, "_stream_passthrough") ||
    str_eq(s, "_stream_readable") ||
    str_eq(s, "_stream_transform") ||
    str_eq(s, "_stream_wrap") ||
    str_eq(s, "_stream_writable") ||
    str_eq(s, "_tls_common") ||
    str_eq(s, "_tls_wrap") ||
    str_eq(s, "assert") ||
    str_eq(s, "async_hooks") ||
    str_eq(s, "buffer") ||
    str_eq(s, "child_process") ||
    str_eq(s, "cluster") ||
    str_eq(s, "console") ||
    str_eq(s, "constants") ||
    str_eq(s, "crypto") ||
    str_eq(s, "dgram") ||
    str_eq(s, "diagnostics_channel") ||
    str_eq(s, "dns") ||
    str_eq(s, "domain") ||
    str_eq(s, "events") ||
    str_eq(s, "fs") ||
    str_eq(s, "fs/promises") ||
    str_eq(s, "http") ||
    str_eq(s, "http2") ||
    str_eq(s, "https") ||
    str_eq(s, "inspector") ||
    str_eq(s, "module") ||
    str_eq(s, "net") ||
    str_eq(s, "os") ||
    str_eq(s, "path") ||
    str_eq(s, "perf_hooks") ||
    str_eq(s, "process") ||
    str_eq(s, "punycode") ||
    str_eq(s, "querystring") ||
    str_eq(s, "readline") ||
    str_eq(s, "repl") ||
    str_eq(s, "stream") ||
    str_eq(s, "string_decoder") ||
    str_eq(s, "sys") ||
    str_eq(s, "timers") ||
    str_eq(s, "tls") ||
    str_eq(s, "trace_events") ||
    str_eq(s, "tty") ||
    str_eq(s, "url") ||
    str_eq(s, "util") ||
    str_eq(s, "v8") ||
    str_eq(s, "vm") ||
    str_eq(s, "worker_threads") ||
    str_eq(s, "zlib")
}

/// Whether a name is in the list of built in packages for node@16.
pub open spec fn node_16_package(s: Seq<char>) -> bool {
    s == "_http_agent"@ ||
    s == "_http_client"@ ||
    s == "_http_common"@ ||
    s == "_http_incoming"@ ||
    s == "_http_outgoing"@ ||
    s == "_http_server"@ ||
    s == "_stream_duplex"@ ||
    s == "_stream_passthrough"@ ||
    s == "_stream_readable"@ ||
    s == "_stream_transform"@ ||
    s == "_stream_wrap"@ ||
    s == "_stream_writable"@ ||
    s == "_tls_common"@ ||
    s == "_tls_wrap"@ ||
    s == "assert"@ ||
    s == "assert/strict"@ ||
    s == "async_hooks"@ ||
    s == "buffer"@ ||
    s == "child_process"@ ||
    s == "cluster"@ ||
    s == "console"@ ||
    s == "constants"@ ||
    s == "crypto"@ ||
    s == "dgram"@ ||
    s == "diagnostics_channel"@ ||
    s == "dns"@ ||
    s == "dns/promises"@ ||
    s == "domain"@ ||
    s == "events"@ ||
    s == "fs"@ ||
    s == "fs/promises"@ ||
    s == "http"@ ||
    s == "http2"@ ||
    s == "https"@ ||
    s == "inspector"@ ||
    s == "module"@ ||
    s == "net"@ ||
    s == "os"@ ||
    s == "path"@ ||
    s == "path/posix"@ ||
    s == "path/win32"@ ||
    s == "perf_hooks"@ ||
    s == "process"@ ||
    s == "punycode"@ ||
    s == "querystring"@ ||
    s == "readline"@ ||
    s == "repl"@ ||
    s == "stream"@ ||
    s == "stream/promises"@ ||
    s == "string_decoder"@ ||
    s == "sys"@ ||
    s == "timers"@ ||
    s == "timers/promises"@ ||
    s == "tls"@ ||
    s == "trace_events"@ ||
    s == "tty"@ ||
    s == "url"@ ||
    s == "util"@ ||
    s == "util/types"@ ||
    s == "v8"@ ||
    s == "vm"@ ||
    s == "worker_threads"@ ||
    s == "zlib"@
}

/// Membership in the list of built in packages for node@16.
pub(crate) fn in_node_16(s: &str) -> (r: bool)
    ensures
        r <==> node_16_package(s@),
{
    str_eq(s, "_http_agent") ||
    str_eq(s, "_http_client") ||
    str_eq(s, "_http_common") ||
    str_eq(s, "_http_incoming") ||
    str_eq(s, "_http_outgoing") ||
    str_eq(s, "_http_server") ||
    str_eq(s, "_stream_duplex") ||
    str_eq(s, "_stream_passthrough") ||
    str_eq(s, "_stream_readable") ||
    str_eq(s, "_stream_transform") ||
    str_eq(s, "_stream_wrap") ||
    str_eq(s, "_stream_writable") ||
    str_eq(s, "_tls_common") ||
    str_eq(s, "_tls_wrap") ||
    str_eq(s, "assert") ||
    str_eq(s, "assert/strict") ||
    str_eq(s, "async_hooks") ||
    str_eq(s, "buffer") ||
    str_eq(s, "child_process") ||
    str_eq(s, "cluster") ||
    str_eq(s, "console") ||
    str_eq(s, "constants") ||
    str_eq(s, "crypto") ||
    str_eq(s, "dgram") ||
    str_eq(s, "diagnostics_channel") ||
    str_eq(s, "dns") ||
    str_eq(s, "dns/promises") ||
    str_eq(s, "domain") ||
    str_eq(s, "events") ||
    str_eq(s, "fs") ||
    str_eq(s, "fs/promises") ||
    str_eq(s, "http") ||
    str_eq(s, "http2") ||
    str_eq(s, "https") ||
    str_eq(s, "inspector") ||
    str_eq(s, "module") ||
    str_eq(s, "net") ||
    str_eq(s, "os") ||
    str_eq(s, "path") ||
    str_eq(s, "path/posix") ||
    str_eq(s, "path/win32") ||
    str_eq(s, "perf_hooks") ||
    str_eq(s, "process") ||
    str_eq(s, "punycode") ||
    str_eq(s, "querystring") ||
    str_eq(s, "readline") ||
    str_eq(s, "repl") ||
    str_eq(s, "stream") ||
    str_eq(s, "stream/promises") ||
    str_eq(s, "string_decoder") ||
    str_eq(s, "sys") ||
    str_eq(s, "timers") ||
    str_eq(s, "timers/promises") ||
    str_eq(s, "tls") ||
    str_eq(s, "trace_events") ||
    str_eq(s, "tty") ||
    str_eq(s, "url") ||
    str_eq(s, "util") ||
    str_eq(s, "util/types") ||
    str_eq(s, "v8") ||
    str_eq(s, "vm") ||
    str_eq(s, "worker_threads") ||
    str_eq(s, "zlib")
}

/// Enumeration of built in lists per node version.
#[derive(Copy, Clone, Debug, PartialEq, Eq, Structural)]
pub enum NodeVersion {
    /// Version for node@12 series.
    Node12,
    /// Version for node@14 series.
    Node14,
    /// Version for node@16 series.
    Node16,
}

impl Default for NodeVersion {
    fn default() -> (r: NodeVersion)
        ensures
            r == NodeVersion::Node16,
    {
        NodeVersion::Node16
    }
}

/// Whether a name is a built in package of a node version.
pub open spec fn core_package_of(s: Seq<char>, version: NodeVersion) -> bool {
    match version {
        NodeVersion::Node12 => node_12_package(s),
        NodeVersion::Node14 => node_14_package(s),
        NodeVersion::Node16 => node_16_package(s),
    }
}

/// Determine if a package is a core package of a node version.
pub fn is_core_package(s: &str, version: NodeVersion) -> (r: bool)
    ensures
        r <==> core_package_of(s@, version),
{
    match version {
        NodeVersion::Node12 => in_node_12(s),
        NodeVersion::Node14 => in_node_14(s),
        NodeVersion::Node16 => in_node_16(s),
    }
}

/// The specifiers of a list that name built in packages of a node
/// version, in their order.
pub open spec fn builtin_specifiers(s: Seq<Seq<char>>, version: NodeVersion) -> Seq<Seq<char>>
    decreases s.len(),
{
    if s.len() == 0 {
        Seq::empty()
    } else if core_package_of(s.last(), version) {
        builtin_specifiers(s.drop_last(), version).push(s.last())
    } else {
        builtin_specifiers(s.drop_last(), version)
    }
}

/// The views of a list of strings.
pub open spec fn string_views(s: Seq<String>) -> Seq<Seq<char>> {
    s.map_values(|x: String| x@)
}

/// Analyze the dependency specifiers of a module and return those that
/// are builtin packages for a node version.
pub fn analyze(dependencies: &Vec<String>, version: NodeVersion) -> (r: Vec<String>)
    ensures
        string_views(r@) == builtin_specifiers(string_views(dependencies@), version),
{
    let mut out: Vec<String> = Vec::new();
    let mut i: usize = 0;
    while i < dependencies.len()
        invariant
            i <= dependencies@.len(),
            string_views(out@) == builtin_specifiers(string_views(dependencies@.take(i as int)), version),
        decreases dependencies@.len() - i,
    {
        let spec = &dependencies[i];
        let ghost before = out@;
        proof {
            let t = string_views(dependencies@.take(i as int + 1));
            assert(t.drop_last() =~= string_views(dependencies@.take(i as int)));
            assert(t.last() == dependencies@[i as int]@);
        }
        if is_core_package(spec.as_str(), version) {
            out.push(spec.clone());
            proof {
                assert(string_views(out@) =~= string_views(before).push(spec@));
            }
        }
        i = i + 1;
    }
    assert(dependencies@.take(dependencies@.len() as int) =~= dependencies@);
    out
}


/// Node only adds built in packages from one version to the next: a built
/// in package of node@12 is one of node@14, and one of node@14 is one of
/// node@16.
pub proof fn lemma_core_packages_grow(s: Seq<char>)
    ensures
        node_12_package(s) ==> node_14_package(s),
        node_14_package(s) ==> node_16_package(s),
        core_package_of(s, NodeVersion::Node12) ==> core_package_of(s, NodeVersion::Node16),
{
}

/// The modules that every node version has built in are core packages of
/// each version: among them `assert`, `buffer`, `child_process`, `crypto`,
/// `events`, `fs`, `http`, `https`, `net`, `os`, `path`, `stream`, `url`,
/// `util` and `zlib`.
pub proof fn lemma_common_core_packages(s: Seq<char>, version: NodeVersion)
    requires
        s == "assert"@ || s == "buffer"@ || s == "child_process"@ || s == "crypto"@ || s == "events"@ || s
            == "fs"@ || s == "http"@ || s == "https"@ || s == "net"@ || s == "os"@ || s == "path"@ || s
            == "stream"@ || s == "url"@ || s == "util"@ || s == "zlib"@,
    ensures
        core_package_of(s, version),
{
}

} // verus!
