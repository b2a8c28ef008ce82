//! Settings of the bridges that expose the bus to OCaml and Python workers.
use vstd::prelude::*;
use crate::text::{hex_padded, push_hex_padded};

verus! {

/// Lower-case hex of each byte, two digits per byte.
pub open spec fn hex_bytes(bytes: Seq<u8>) -> Seq<char>
    decreases bytes.len(),
{
    if bytes.len() == 0 {
        Seq::empty()
    } else {
        hex_bytes(bytes.drop_last()) + hex_padded(bytes.last() as nat, 2)
    }
}

/// The digest as 64 lower-case hex digits.
pub fn hex_digest(bytes: &[u8; 32]) -> (r: String)
    ensures
        r@ == hex_bytes(bytes@),
{
    let mut out = String::new();
    let mut i: usize = 0;
    while i < 32
        invariant
            i <= 32,
            bytes@.len() == 32,
            out@ == hex_bytes(bytes@.take(i as int)),
        decreases 32 - i,
    {
        push_hex_padded(&mut out, bytes[i] as u128, 2);
        proof {
            assert(bytes@.take(i + 1).drop_last() =~= bytes@.take(i as int));
        }
        i = i + 1;
    }
    proof {
        assert(bytes@.take(32) =~= bytes@);
    }
    out
}

/// How to launch an OCaml worker.
#[derive(Debug, Clone)]
pub struct OcamlChildConfig {
    pub program: String,
    pub args: Vec<String>,
    pub env: Vec<(String, String)>,
    pub working_dir: Option<String>,
}

impl Default for OcamlChildConfig {
    fn default() -> (r: Self)
        ensures
            r.program@ == "ocamlrun"@,
            r.args@.len() == 0,
            r.env@.len() == 0,
            r.working_dir is None,
    {
        OcamlChildConfig {
            program: "ocamlrun".to_owned(),
            args: Vec::new(),
            env: Vec::new(),
            working_dir: None,
        }
    }
}

/// Settings of the OCaml bridge.
#[derive(Debug, Clone)]
pub struct OcamlBridgeConfig {
    pub socket_path: String,
    pub schema_digest: [u8; 32],
    pub child: Option<OcamlChildConfig>,
}

impl OcamlBridgeConfig {
    /// A bridge on `socket_path` for the schema with `schema_digest`, with no
    /// worker to launch.
    pub fn new(socket_path: &str, schema_digest: [u8; 32]) -> (r: Self)
        ensures
            r.socket_path@ == socket_path@,
            r.schema_digest == schema_digest,
            r.child is None,
    {
        OcamlBridgeConfig { socket_path: socket_path.to_owned(), schema_digest, child: None }
    }
}

/// How to launch a Python worker.
#[derive(Debug, Clone)]
pub struct PythonChildConfig {
    pub program: String,
    pub args: Vec<String>,
    pub env: Vec<(String, String)>,
    pub working_dir: Option<String>,
}

impl Default for PythonChildConfig {
    fn default() -> (r: Self)
        ensures
            r.program@ == "python3"@,
            r.args@.len() == 0,
            r.env@.len() == 0,
            r.working_dir is None,
    {
        PythonChildConfig {
            program: "python3".to_owned(),
            args: Vec::new(),
            env: Vec::new(),
            working_dir: None,
        }
    }
}

/// Settings of the Python bridge.
#[derive(Debug, Clone)]
pub struct PythonBridgeConfig {
    pub socket_path: String,
    pub child: Option<PythonChildConfig>,
}

impl PythonBridgeConfig {
    /// A bridge on `socket_path`, with no worker to launch.
    pub fn new(socket_path: &str) -> (r: Self)
        ensures
            r.socket_path@ == socket_path@,
            r.child is None,
    {
        PythonBridgeConfig { socket_path: socket_path.to_owned(), child: None }
    }
}

/// The pair `(k, v)` as texts.
pub open spec fn pair_text(p: (String, String)) -> (Seq<char>, Seq<char>) {
    (p.0@, p.1@)
}

/// The environment given to a launched OCaml worker, in the order it is
/// set: the socket path, the schema digest in hex, then the configured
/// variables (a later setting of a name wins).
pub open spec fn ocaml_worker_env(config: OcamlBridgeConfig, child: OcamlChildConfig) -> Seq<(Seq<char>, Seq<char>)> {
    seq![("MYCELIUM_SOCKET"@, config.socket_path@), ("MYCELIUM_SCHEMA_DIGEST"@, hex_bytes(config.schema_digest@))]
        + child.env@.map_values(|p: (String, String)| pair_text(p))
}

/// The environment given to a launched Python worker, in the order it is
/// set: the socket path, then the configured variables.
pub open spec fn python_worker_env(config: PythonBridgeConfig, child: PythonChildConfig) -> Seq<(Seq<char>, Seq<char>)> {
    seq![("MYCELIUM_SOCKET"@, config.socket_path@)] + child.env@.map_values(|p: (String, String)| pair_text(p))
}

fn copy_text(s: &str) -> (r: String)
    ensures
        r@ == s@,
{
    let mut r = String::new();
    r.append(s);
    proof {
        assert(Seq::<char>::empty() + s@ =~= s@);
    }
    r
}

/// Appends copies of the pairs.
fn append_pairs(out: &mut Vec<(String, String)>, pairs: &Vec<(String, String)>)
    ensures
        final(out)@.map_values(|p: (String, String)| pair_text(p)) == old(out)@.map_values(
            |p: (String, String)| pair_text(p),
        ) + pairs@.map_values(|p: (String, String)| pair_text(p)),
{
    let n = pairs.len();
    let ghost start = out@.map_values(|p: (String, String)| pair_text(p));
    let mut i: usize = 0;
    while i < n
        invariant
            n == pairs@.len(),
            i <= n,
            out@.map_values(|p: (String, String)| pair_text(p)) == start + pairs@.take(
                i as int,
            ).map_values(|p: (String, String)| pair_text(p)),
        decreases n - i,
    {
        let k = copy_text(pairs[i].0.as_str());
        let v = copy_text(pairs[i].1.as_str());
        let ghost before = out@;
        out.push((k, v));
        proof {
            let f = |p: (String, String)| pair_text(p);
            assert(pair_text((k, v)) == pair_text(pairs@[i as int]));
            assert(out@.map_values(f) =~= before.map_values(f).push(pair_text(pairs@[i as int])));
            assert(pairs@.take(i + 1).map_values(f) =~= pairs@.take(i as int).map_values(f).push(
                pair_text(pairs@[i as int]),
            ));
        }
        i = i + 1;
    }
    proof {
        assert(pairs@.take(n as int) =~= pairs@);
    }
}

impl OcamlBridgeConfig {
    /// The environment of a launched worker: the socket path, the schema
    /// digest in hex, then the worker's own variables.
    pub fn worker_env(&self, child: &OcamlChildConfig) -> (r: Vec<(String, String)>)
        ensures
            r@.map_values(|p: (String, String)| pair_text(p)) == ocaml_worker_env(*self, *child),
    {
        let mut out: Vec<(String, String)> = Vec::new();
        out.push((copy_text("MYCELIUM_SOCKET"), copy_text(self.socket_path.as_str())));
        out.push((copy_text("MYCELIUM_SCHEMA_DIGEST"), hex_digest(&self.schema_digest)));
        proof {
            assert(out@.map_values(|p: (String, String)| pair_text(p)) =~= seq![
                ("MYCELIUM_SOCKET"@, self.socket_path@),
                ("MYCELIUM_SCHEMA_DIGEST"@, hex_bytes(self.schema_digest@)),
            ]);
        }
        append_pairs(&mut out, &child.env);
        out
    }
}

impl PythonBridgeConfig {
    /// The environment of a launched worker: the socket path, then the
    /// worker's own variables.
    pub fn worker_env(&self, child: &PythonChildConfig) -> (r: Vec<(String, String)>)
        ensures
            r@.map_values(|p: (String, String)| pair_text(p)) == python_worker_env(*self, *child),
    {
        let mut out: Vec<(String, String)> = Vec::new();
        out.push((copy_text("MYCELIUM_SOCKET"), copy_text(self.socket_path.as_str())));
        proof {
            assert(out@.map_values(|p: (String, String)| pair_text(p)) =~= seq![
                ("MYCELIUM_SOCKET"@, self.socket_path@),
            ]);
        }
        append_pairs(&mut out, &child.env);
        out
    }
}

} // verus!
