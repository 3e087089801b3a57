//! The identity and environment under which the desktop tools run.
use vstd::prelude::*;

use crate::options::Options;
use crate::strmap::StrMap;
use crate::text::{string_views, chars_of, str_concat, decimal, decimal_string, find_char, first_index, string_of_range};

verus! {

/// The map that `KEY=VALUE` items give; an item without `=` is skipped and a
/// later item wins over an earlier one.
pub open spec fn env_items_map(items: Seq<Seq<char>>) -> Map<Seq<char>, Seq<char>>
    decreases items.len(),
{
    if items.len() == 0 {
        Map::empty()
    } else {
        let m = env_items_map(items.drop_last());
        let it = items.last();
        match first_index(it, '=') {
            Some(i) => m.insert(it.take(i), it.skip(i + 1)),
            None => m,
        }
    }
}

/// Turns `KEY=VALUE` items into a map, splitting each at its first `=`.
pub fn env_slice_to_map(env: &[String]) -> (r: StrMap)
    ensures
        r@ == env_items_map(string_views(env@)),
{
    let ghost items = string_views(env@);
    let mut m = StrMap::new();
    let mut i: usize = 0;
    assert(items.take(0) =~= Seq::<Seq<char>>::empty());
    while i < env.len()
        invariant
            i <= env.len(),
            items == string_views(env@),
            m@ == env_items_map(items.take(i as int)),
        decreases env.len() - i,
    {
        assert(items.take(i + 1).drop_last() =~= items.take(i as int));
        let v = chars_of(env[i].as_str());
        if let Some(idx) = find_char(&v, '=') {
            proof {
                crate::text::lemma_first_index_where(v@, crate::text::CharTest::Is('='));
            }
            let k = string_of_range(&v, 0, idx);
            let val = string_of_range(&v, idx + 1, v.len());
            assert(v@.subrange(0, idx as int) =~= v@.take(idx as int));
            assert(v@.subrange(idx + 1, v@.len() as int) =~= v@.skip(idx + 1));
            m.insert(k, val);
        }
        i = i + 1;
    }
    assert(items.take(env.len() as int) =~= items);
    m
}

/// The pieces of `data` between NUL bytes, empty ones included.
pub open spec fn nul_pieces(data: Seq<u8>) -> Seq<Seq<u8>>
    decreases data.len(),
{
    if data.len() == 0 {
        seq![Seq::<u8>::empty()]
    } else {
        let r = nul_pieces(data.drop_last());
        if data.last() == 0 {
            r.push(Seq::<u8>::empty())
        } else {
            r.update(r.len() - 1, r.last().push(data.last()))
        }
    }
}

/// The pieces that are not empty, in order.
pub open spec fn nonempty_pieces(ps: Seq<Seq<u8>>) -> Seq<Seq<u8>>
    decreases ps.len(),
{
    if ps.len() == 0 {
        Seq::empty()
    } else {
        let r = nonempty_pieces(ps.drop_last());
        if ps.last().len() > 0 {
            r.push(ps.last())
        } else {
            r
        }
    }
}

/// What `String::from_utf8_lossy` makes of some bytes.
pub uninterp spec fn lossy_text(bytes: Seq<u8>) -> Seq<char>;

/// The bytes as text, invalid UTF-8 replaced (`String::from_utf8_lossy`).
#[verifier::external_body]
fn utf8_lossy(bytes: &Vec<u8>) -> (r: String)
    ensures
        r@ == lossy_text(bytes@),
{
    String::from_utf8_lossy(bytes).into_owned()
}

proof fn lemma_nul_pieces_nonempty(data: Seq<u8>)
    ensures
        nul_pieces(data).len() >= 1,
    decreases data.len(),
{
    if data.len() > 0 {
        lemma_nul_pieces_nonempty(data.drop_last());
    }
}

/// The nonempty items of a `/proc/<pid>/environ` text, split at NUL bytes.
pub fn environ_items(data: &Vec<u8>) -> (r: Vec<Vec<u8>>)
    ensures
        r@.map_values(|b: Vec<u8>| b@) == nonempty_pieces(nul_pieces(data@)),
{
    let mut done: Vec<Vec<u8>> = Vec::new();
    let mut cur: Vec<u8> = Vec::new();
    let mut i: usize = 0;
    assert(data@.take(0) =~= Seq::<u8>::empty());
    assert(nonempty_pieces(Seq::<Seq<u8>>::empty()) =~= Seq::<Seq<u8>>::empty());
    while i < data.len()
        invariant
            i <= data.len(),
            nul_pieces(data@.take(i as int)).last() == cur@,
            done@.map_values(|b: Vec<u8>| b@) == nonempty_pieces(nul_pieces(data@.take(i as int)).drop_last()),
        decreases data.len() - i,
    {
        let ghost p = nul_pieces(data@.take(i as int));
        proof {
            lemma_nul_pieces_nonempty(data@.take(i as int));
            assert(data@.take(i + 1).drop_last() =~= data@.take(i as int));
            assert(data@.take(i + 1).last() == data@[i as int]);
        }
        let ghost before = done@.map_values(|b: Vec<u8>| b@);
        let b = data[i];
        if b == 0 {
            assert(p.push(Seq::<u8>::empty()).drop_last() =~= p);
            assert(p.drop_last().push(p.last()) =~= p);
            if cur.len() > 0 {
                let ghost c = cur@;
                done.push(cur);
                assert(done@.map_values(|x: Vec<u8>| x@) =~= before.push(c));
            }
            cur = Vec::new();
            assert(cur@ =~= Seq::<u8>::empty());
        } else {
            cur.push(b);
            assert(p.update(p.len() - 1, p.last().push(b)).drop_last() =~= p.drop_last());
        }
        i = i + 1;
    }
    assert(data@.take(data.len() as int) =~= data@);
    let ghost p = nul_pieces(data@);
    proof {
        lemma_nul_pieces_nonempty(data@);
        assert(p.drop_last().push(p.last()) =~= p);
    }
    if cur.len() > 0 {
        let ghost before = done@.map_values(|x: Vec<u8>| x@);
        let ghost c = cur@;
        done.push(cur);
        assert(done@.map_values(|x: Vec<u8>| x@) =~= before.push(c));
    }
    done
}

/// The environment that a `/proc/<pid>/environ` text gives: its nonempty items
/// between NUL bytes, each read as text (invalid UTF-8 replaced) and split at its
/// first `=`; a later item wins.
pub fn environ_to_map(data: &Vec<u8>) -> (r: StrMap)
    ensures
        r@ == env_items_map(nonempty_pieces(nul_pieces(data@)).map_values(|b: Seq<u8>| lossy_text(b))),
{
    let items = environ_items(data);
    let ghost iv = items@.map_values(|b: Vec<u8>| b@);
    let mut texts: Vec<String> = Vec::new();
    let mut i: usize = 0;
    while i < items.len()
        invariant
            i <= items.len(),
            iv == items@.map_values(|b: Vec<u8>| b@),
            string_views(texts@) == iv.take(i as int).map_values(|b: Seq<u8>| lossy_text(b)),
        decreases items.len() - i,
    {
        let ghost before = string_views(texts@);
        let t = utf8_lossy(&items[i]);
        texts.push(t);
        assert(string_views(texts@) =~= before.push(lossy_text(iv[i as int])));
        assert(iv.take(i + 1).map_values(|b: Seq<u8>| lossy_text(b)) =~= iv.take(i as int).map_values(
            |b: Seq<u8>| lossy_text(b),
        ).push(lossy_text(iv[i as int])));
        i = i + 1;
    }
    assert(iv.take(items.len() as int) =~= iv);
    env_slice_to_map(texts.as_slice())
}

/// `base` with every entry of `over` stored over it.
pub fn merge_env_maps(base: StrMap, over: StrMap) -> (r: StrMap)
    ensures
        r@ == base@.union_prefer_right(over@),
{
    let mut merged = base;
    merged.extend(&over);
    merged
}

/// The variables that a login session passes on.
pub open spec fn is_session_key(k: Seq<char>) -> bool {
    ||| k == "PATH"@
    ||| k == "LANG"@
    ||| k == "LC_ALL"@
    ||| k == "LC_CTYPE"@
    ||| k == "LC_MESSAGES"@
    ||| k == "TERM"@
}

/// The session variables of `env` that are set and not empty.
pub open spec fn session_env(env: Map<Seq<char>, Seq<char>>) -> Map<Seq<char>, Seq<char>> {
    Map::new(
        |k: Seq<char>| is_session_key(k) && env.contains_key(k) && env[k].len() > 0,
        |k: Seq<char>| env[k],
    )
}

fn copy_if_set(m: &mut StrMap, env: &StrMap, key: &str)
    ensures
        final(m)@ == (if env@.contains_key(key@) && env@[key@].len() > 0 {
            old(m)@.insert(key@, env@[key@])
        } else {
            old(m)@
        }),
{
    if let Some(v) = env.get(key) {
        if v.unicode_len() > 0 {
            m.insert(crate::text::to_string(key), v);
        }
    }
}

/// The session variables of the process environment that are set and not empty.
pub fn session_base_env(env: &StrMap) -> (r: StrMap)
    ensures
        r@ == session_env(env@),
{
    let mut m = StrMap::new();
    copy_if_set(&mut m, env, "PATH");
    copy_if_set(&mut m, env, "LANG");
    copy_if_set(&mut m, env, "LC_ALL");
    copy_if_set(&mut m, env, "LC_CTYPE");
    copy_if_set(&mut m, env, "LC_MESSAGES");
    copy_if_set(&mut m, env, "TERM");
    assert(m@ =~= session_env(env@));
    m
}

/// `env` with the runtime directory and the session bus filled in where missing:
/// `/run/user/<uid>` and `unix:path=<runtime dir>/bus`.
pub open spec fn completed_session_env(env: Map<Seq<char>, Seq<char>>, uid: u32) -> Map<
    Seq<char>,
    Seq<char>,
> {
    let e1 = if env.contains_key("XDG_RUNTIME_DIR"@) {
        env
    } else {
        env.insert("XDG_RUNTIME_DIR"@, "/run/user/"@ + decimal(uid as nat))
    };
    if e1.contains_key("DBUS_SESSION_BUS_ADDRESS"@) {
        e1
    } else {
        e1.insert("DBUS_SESSION_BUS_ADDRESS"@, "unix:path="@ + e1["XDG_RUNTIME_DIR"@] + "/bus"@)
    }
}

/// Fills in the runtime directory and the session bus address where missing.
pub fn ensure_linux_session_env(env_map: &mut StrMap, uid: u32)
    ensures
        final(env_map)@ == completed_session_env(old(env_map)@, uid),
{
    if !env_map.contains_key("XDG_RUNTIME_DIR") {
        let n = decimal_string(uid);
        let dir = str_concat("/run/user/", n.as_str());
        env_map.insert(crate::text::to_string("XDG_RUNTIME_DIR"), dir);
    }
    if !env_map.contains_key("DBUS_SESSION_BUS_ADDRESS") {
        let xdg = env_map.get_or_empty("XDG_RUNTIME_DIR");
        let a = str_concat("unix:path=", xdg.as_str());
        let bus = str_concat(a.as_str(), "/bus");
        env_map.insert(crate::text::to_string("DBUS_SESSION_BUS_ADDRESS"), bus);
    }
}

/// Identity and environment for running the desktop tools.
pub struct LinuxExecContext {
    pub env_map: StrMap,
    /// Switch to `uid` and `gid` before running a tool.
    pub use_credential: bool,
    pub uid: u32,
    pub gid: u32,
}

/// The context as mathematical values: environment, whether to switch identity,
/// user id, group id.
pub type ContextView = (Map<Seq<char>, Seq<char>>, bool, u32, u32);

impl LinuxExecContext {
    pub open spec fn view_tuple(&self) -> ContextView {
        (self.env_map@, self.use_credential, self.uid, self.gid)
    }
}

/// Whether building the context for `opt` needs the environment of the calling
/// process: a caller pid is given and no environment items are.
pub open spec fn wants_peer_env(opt: Option<&Options>) -> bool {
    match opt {
        Some(o) => o.environment@.len() == 0 && o.peer_pid > 0,
        None => false,
    }
}

/// The context for `opt`, given this process's environment, the caller's
/// environment where read, this process's user and group id and whether it runs
/// as root.
pub open spec fn context_for(
    opt: Option<&Options>,
    process_env: Map<Seq<char>, Seq<char>>,
    peer_env: Option<Map<Seq<char>, Seq<char>>>,
    uid: u32,
    gid: u32,
    root: bool,
) -> ContextView {
    match opt {
        None => (process_env, false, uid, gid),
        Some(o) => if o.environment@.len() > 0 {
            let env = session_env(process_env).union_prefer_right(
                env_items_map(string_views(o.environment@)),
            );
            if o.peer_uid != 0 || o.peer_gid != 0 {
                (completed_session_env(env, o.peer_uid), root, o.peer_uid, o.peer_gid)
            } else {
                (completed_session_env(env, uid), false, uid, gid)
            }
        } else if o.peer_pid > 0 {
            let env = session_env(process_env).union_prefer_right(peer_env->0);
            (completed_session_env(env, o.peer_uid), root, o.peer_uid, o.peer_gid)
        } else {
            (process_env, false, uid, gid)
        },
    }
}

/// The view of a map that may be absent.
pub open spec fn map_view_of(p: Option<StrMap>) -> Option<Map<Seq<char>, Seq<char>>> {
    match p {
        Some(m) => Some(m@),
        None => None,
    }
}

/// The real user id of this process (`nix::unistd::getuid`).
#[verifier::external_body]
fn current_uid() -> u32 {
    nix::unistd::getuid().as_raw()
}

/// The real group id of this process (`nix::unistd::getgid`).
#[verifier::external_body]
fn current_gid() -> u32 {
    nix::unistd::getgid().as_raw()
}

/// Whether this process runs as root (`nix::unistd::geteuid` and `Uid::is_root`).
#[verifier::external_body]
fn effective_uid_is_root() -> bool {
    nix::unistd::geteuid().is_root()
}

/// Whether building the context for `opt` needs the caller's environment.
pub fn needs_peer_env(opt: Option<&Options>) -> (r: bool)
    ensures
        r == wants_peer_env(opt),
{
    match opt {
        Some(o) => o.environment.len() == 0 && o.peer_pid > 0,
        None => false,
    }
}

impl LinuxExecContext {
    /// The context for `opt`, from the environments and ids given.
    pub fn from_sources(
        opt: Option<&Options>,
        process_env: StrMap,
        peer_env: Option<StrMap>,
        uid: u32,
        gid: u32,
        root: bool,
    ) -> (r: LinuxExecContext)
        requires
            wants_peer_env(opt) ==> peer_env is Some,
        ensures
            r.view_tuple() == context_for(
                opt,
                process_env@,
                map_view_of(peer_env),
                uid,
                gid,
                root,
            ),
    {
        match opt {
            None => LinuxExecContext { env_map: process_env, use_credential: false, uid, gid },
            Some(o) => {
                if o.environment.len() > 0 {
                    let base = session_base_env(&process_env);
                    let items = env_slice_to_map(o.environment.as_slice());
                    let mut env = merge_env_maps(base, items);
                    let mut ctx = LinuxExecContext { env_map: StrMap::new(), use_credential: false, uid, gid };
                    if o.peer_uid != 0 || o.peer_gid != 0 {
                        ctx.uid = o.peer_uid;
                        ctx.gid = o.peer_gid;
                        ctx.use_credential = root;
                    }
                    ensure_linux_session_env(&mut env, ctx.uid);
                    ctx.env_map = env;
                    ctx
                } else if o.peer_pid > 0 {
                    let base = session_base_env(&process_env);
                    let peer = match peer_env {
                        Some(p) => p,
                        None => StrMap::new(),
                    };
                    let mut env = merge_env_maps(base, peer);
                    ensure_linux_session_env(&mut env, o.peer_uid);
                    LinuxExecContext {
                        env_map: env,
                        use_credential: root,
                        uid: o.peer_uid,
                        gid: o.peer_gid,
                    }
                } else {
                    LinuxExecContext { env_map: process_env, use_credential: false, uid, gid }
                }
            },
        }
    }

    /// The context for `opt`, with this process's ids read from the system.
    pub fn new(opt: Option<&Options>, process_env: StrMap, peer_env: Option<StrMap>) -> (r:
        LinuxExecContext)
        requires
            wants_peer_env(opt) ==> peer_env is Some,
        ensures
            exists|uid: u32, gid: u32, root: bool|
                r.view_tuple() == context_for(
                    opt,
                    process_env@,
                    map_view_of(peer_env),
                    uid,
                    gid,
                    root,
                ),
    {
        let uid = current_uid();
        let gid = current_gid();
        let root = effective_uid_is_root();
        LinuxExecContext::from_sources(opt, process_env, peer_env, uid, gid, root)
    }
}

/// Completing the session environment leaves both the runtime directory and the
/// session bus set, and keeps every value that was already there.
pub proof fn law_session_env_completed(env: Map<Seq<char>, Seq<char>>, uid: u32)
    ensures
        completed_session_env(env, uid).contains_key("XDG_RUNTIME_DIR"@),
        completed_session_env(env, uid).contains_key("DBUS_SESSION_BUS_ADDRESS"@),
        forall|k: Seq<char>| #[trigger] env.contains_key(k) ==> completed_session_env(env, uid).contains_key(k)
            && completed_session_env(env, uid)[k] == env[k],
{
}

} // verus!
