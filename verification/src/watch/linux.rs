//! Linux: `gsettings monitor` on GNOME-like desktops, the `kioslaverc` file on KDE.
use vstd::prelude::*;

use crate::error::ProxyError;
use crate::platform::linux::context::LinuxExecContext;
use crate::platform::linux::{is_gnome_like, setting};
use crate::platform::{command, command_views, CommandSpec, CommandView};
use crate::strmap::StrMap;
use crate::text::{chars_of, str_concat, contains_str, str_eq, string_views, to_string};

verus! {

/// How the settings of a desktop are watched.
#[derive(Clone, Copy, PartialEq, Eq, Structural, Debug)]
pub enum WatchBackend {
    /// One `gsettings monitor` per proxy schema.
    Gnome,
    /// The `kioslaverc` file.
    Kde,
}

/// The watcher for the desktop that the environment names.
pub open spec fn watch_backend_for(env: Map<Seq<char>, Seq<char>>) -> Result<WatchBackend, Seq<char>> {
    let desktop = setting(env, "XDG_CURRENT_DESKTOP"@);
    if is_gnome_like(desktop) {
        Ok(WatchBackend::Gnome)
    } else if desktop == "KDE"@ {
        Ok(WatchBackend::Kde)
    } else {
        Err(desktop)
    }
}

/// The watcher that waiting for a change uses on the context's desktop; an error
/// where no desktop is set or it is neither GNOME-like nor KDE.
pub fn wait_proxy_settings_change(ctx: &LinuxExecContext) -> (r: Result<WatchBackend, ProxyError>)
    ensures
        setting(ctx.env_map@, "XDG_CURRENT_DESKTOP"@).len() == 0 ==> (r matches Err(e) && e is DesktopNotSet),
        setting(ctx.env_map@, "XDG_CURRENT_DESKTOP"@).len() > 0 ==> match watch_backend_for(ctx.env_map@) {
            Ok(b) => r == Ok::<WatchBackend, ProxyError>(b),
            Err(d) => r matches Err(ProxyError::UnsupportedDesktop(x)) && x@ == d,
        },
{
    let desktop = ctx.env_map.get_or_empty("XDG_CURRENT_DESKTOP");
    if desktop.unicode_len() == 0 {
        return Err(ProxyError::DesktopNotSet);
    }
    let is_kde = str_eq(desktop.as_str(), "KDE");
    let is_gnome = contains_str(desktop.as_str(), "GNOME") || str_eq(desktop.as_str(), "Unity")
        || str_eq(desktop.as_str(), "X-Cinnamon") || str_eq(desktop.as_str(), "niri");
    if is_gnome {
        Ok(WatchBackend::Gnome)
    } else if is_kde {
        Ok(WatchBackend::Kde)
    } else {
        Err(ProxyError::UnsupportedDesktop(desktop))
    }
}

// ───────────────────────────── GNOME ─────────────────────────────

/// The schemas that hold the proxy settings.
pub open spec fn gnome_schemas() -> Seq<Seq<char>> {
    seq![
        "org.gnome.system.proxy"@,
        "org.gnome.system.proxy.http"@,
        "org.gnome.system.proxy.https"@,
        "org.gnome.system.proxy.ftp"@,
        "org.gnome.system.proxy.socks"@,
    ]
}

/// `gsettings monitor <schema>`.
pub open spec fn gsettings_monitor(schema: Seq<char>) -> CommandView {
    ("gsettings"@, seq!["monitor"@, schema])
}

fn monitor_command(schema: &str) -> (r: CommandSpec)
    ensures
        r@ == gsettings_monitor(schema@),
{
    let mut args: Vec<String> = Vec::new();
    args.push(to_string("monitor"));
    args.push(to_string(schema));
    let r = command("gsettings", args);
    assert(r@.1 =~= seq!["monitor"@, schema@]);
    r
}

fn push_monitor(v: &mut Vec<CommandSpec>, schema: &str)
    ensures
        command_views(final(v)@) == command_views(old(v)@).push(gsettings_monitor(schema@)),
{
    let c = monitor_command(schema);
    let ghost prev = v@;
    v.push(c);
    assert(command_views(v@) =~= command_views(prev).push(gsettings_monitor(schema@)));
}

/// The `gsettings monitor` commands, one per proxy schema.
pub fn gnome_monitor_commands() -> (r: Vec<CommandSpec>)
    ensures
        command_views(r@) == gnome_schemas().map_values(|s: Seq<char>| gsettings_monitor(s)),
{
    let mut v: Vec<CommandSpec> = Vec::new();
    push_monitor(&mut v, "org.gnome.system.proxy");
    push_monitor(&mut v, "org.gnome.system.proxy.http");
    push_monitor(&mut v, "org.gnome.system.proxy.https");
    push_monitor(&mut v, "org.gnome.system.proxy.ftp");
    push_monitor(&mut v, "org.gnome.system.proxy.socks");
    assert(command_views(v@) =~= gnome_schemas().map_values(|s: Seq<char>| gsettings_monitor(s)));
    v
}

/// What one look at a running `gsettings monitor` comes to.
#[derive(Clone, Copy, PartialEq, Eq, Structural, Debug)]
pub enum MonitorStep {
    /// Cancelled: stop the monitor, no change.
    Cancelled,
    /// A line arrived: stop the monitor, a change.
    Changed,
    /// The monitor exited after cancellation: no change.
    ExitedCancelled,
    /// The monitor exited by itself: an error.
    Exited,
    /// Nothing yet: look again.
    Continue,
}

/// What a look at the monitor comes to: cancellation first, then a line read, then
/// the monitor's exit (cancelled meanwhile or not).
pub open spec fn monitor_next(cancelled: bool, line: Option<Seq<char>>, exited: bool, cancelled_now: bool) -> MonitorStep {
    if cancelled {
        MonitorStep::Cancelled
    } else if line matches Some(l) && l.len() > 0 {
        MonitorStep::Changed
    } else if exited {
        if cancelled_now {
            MonitorStep::ExitedCancelled
        } else {
            MonitorStep::Exited
        }
    } else {
        MonitorStep::Continue
    }
}

/// What a look at the monitor comes to, given whether waiting was cancelled, the
/// line read where output was ready, whether the monitor has exited and whether
/// waiting was cancelled by then.
pub fn wait_gsettings_schema_change(cancelled: bool, line: Option<&str>, exited: bool, cancelled_now: bool) -> (r: MonitorStep)
    ensures
        r == monitor_next(
            cancelled,
            match line {
                Some(l) => Some(l@),
                None => None,
            },
            exited,
            cancelled_now,
        ),
{
    if cancelled {
        return MonitorStep::Cancelled;
    }
    if let Some(l) = line {
        if l.unicode_len() > 0 {
            return MonitorStep::Changed;
        }
    }
    if exited {
        if cancelled_now {
            MonitorStep::ExitedCancelled
        } else {
            MonitorStep::Exited
        }
    } else {
        MonitorStep::Continue
    }
}

/// What the wait over all monitors does next.
#[derive(Debug)]
pub enum GnomeWaitStep {
    /// Waiting was cancelled.
    Cancelled,
    /// A monitor saw a change: stop the others and report it.
    Changed,
    /// A monitor failed with this message.
    Failed(String),
    /// Nothing yet: wait again.
    Continue,
}

/// What the wait over all monitors does next: cancellation first, then a change,
/// then a monitor's failure.
pub fn wait_gnome_proxy_settings_change(cancelled: bool, changed: bool, failure: Option<String>) -> (r: GnomeWaitStep)
    ensures
        cancelled ==> r is Cancelled,
        !cancelled && changed ==> r is Changed,
        !cancelled && !changed ==> match failure {
            Some(m) => r matches GnomeWaitStep::Failed(x) && x@ == m@,
            None => r is Continue,
        },
{
    if cancelled {
        GnomeWaitStep::Cancelled
    } else if changed {
        GnomeWaitStep::Changed
    } else {
        match failure {
            Some(m) => GnomeWaitStep::Failed(m),
            None => GnomeWaitStep::Continue,
        }
    }
}

// ───────────────────────────── KDE ─────────────────────────────

/// `name` appended to the path `base` (`Path::join` with a relative name on Unix):
/// a separator between them unless `base` is empty or already ends with one.
pub open spec fn join_path(base: Seq<char>, name: Seq<char>) -> Seq<char> {
    if base.len() == 0 {
        name
    } else if base.last() == '/' {
        base + name
    } else {
        base + "/"@ + name
    }
}

/// `name` appended to the path `base`.
pub fn path_join(base: &str, name: &str) -> (r: String)
    ensures
        r@ == join_path(base@, name@),
{
    let v = chars_of(base);
    if v.len() == 0 {
        to_string(name)
    } else if v[v.len() - 1] == '/' {
        str_concat(base, name)
    } else {
        let a = str_concat(base, "/");
        str_concat(a.as_str(), name)
    }
}

/// The directory of KDE's configuration: `XDG_CONFIG_HOME`, else `.config` under the
/// home directory (`HOME`, else what the system reports); none where neither is known.
pub open spec fn config_dir(env: Map<Seq<char>, Seq<char>>, home: Option<Seq<char>>) -> Option<Seq<char>> {
    let xdg = setting(env, "XDG_CONFIG_HOME"@);
    if xdg.len() > 0 {
        Some(xdg)
    } else if env.contains_key("HOME"@) {
        Some(join_path(env["HOME"@], ".config"@))
    } else {
        match home {
            Some(h) => Some(join_path(h, ".config"@)),
            None => None,
        }
    }
}

/// The user's home directory as the system reports it (`dirs::home_dir`), as text.
#[verifier::external_body]
fn system_home_dir() -> Option<String> {
    dirs::home_dir().map(|p| p.to_string_lossy().into_owned())
}

/// Where KDE keeps its proxy settings: the configuration directory and the
/// `kioslaverc` file in it.
pub struct KdeConfigPath {
    pub dir: String,
    pub file: String,
}

/// The configuration directory for an environment and what the system reports as
/// the home directory.
pub fn config_dir_from(env: &StrMap, home: Option<String>) -> (r: Result<String, ProxyError>)
    ensures
        match config_dir(env@, match home { Some(h) => Some(h@), None => None }) {
            Some(d) => r matches Ok(x) && x@ == d,
            None => r matches Err(e) && e is NoConfigDir,
        },
{
    let xdg = env.get_or_empty("XDG_CONFIG_HOME");
    if xdg.unicode_len() > 0 {
        return Ok(xdg);
    }
    match env.get("HOME") {
        Some(h) => Ok(path_join(h.as_str(), ".config")),
        None => match home {
            Some(h) => Ok(path_join(h.as_str(), ".config")),
            None => Err(ProxyError::NoConfigDir),
        },
    }
}

/// Where KDE keeps its proxy settings for the context's environment; the system is
/// asked for the home directory only where the environment names none.
pub fn kde_proxy_config_path(ctx: &LinuxExecContext) -> (r: Result<KdeConfigPath, ProxyError>)
    ensures
        setting(ctx.env_map@, "XDG_CONFIG_HOME"@).len() > 0 || ctx.env_map@.contains_key("HOME"@) ==> ({
            let d = config_dir(ctx.env_map@, None).unwrap();
            r matches Ok(p) && p.dir@ == d && p.file@ == join_path(d, "kioslaverc"@)
        }),
        r matches Ok(p) ==> p.file@ == join_path(p.dir@, "kioslaverc"@),
        r matches Err(e) ==> e is NoConfigDir,
{
    let needs_system = ctx.env_map.get_or_empty("XDG_CONFIG_HOME").unicode_len() == 0 && !ctx.env_map.contains_key("HOME");
    let home = if needs_system {
        system_home_dir()
    } else {
        None
    };
    let dir = config_dir_from(&ctx.env_map, home)?;
    let file = path_join(dir.as_str(), "kioslaverc");
    Ok(KdeConfigPath { dir, file })
}

/// What to watch: the file where it exists, else its directory (and then only
/// events for the file's name count).
pub fn kde_watch_target(path: &KdeConfigPath, exists: bool) -> (r: (String, bool))
    ensures
        exists ==> r.0@ == path.file@ && !r.1,
        !exists ==> r.0@ == path.dir@ && r.1,
{
    if exists {
        (path.file.clone(), false)
    } else {
        (path.dir.clone(), true)
    }
}

/// Whether a batch of file events is a change to the settings: any event when the
/// file itself is watched, else an event named `kioslaverc`.
pub fn wait_kde_proxy_settings_change(watch_dir: bool, names: &Vec<String>) -> (r: bool)
    ensures
        r == (!watch_dir || string_views(names@).contains("kioslaverc"@)),
{
    if !watch_dir {
        return true;
    }
    crate::platform::contains_string(names, "kioslaverc")
}

/// What one wait on the inotify descriptor came to.
#[derive(Debug)]
pub enum InotifyWait {
    /// A signal interrupted the wait.
    Interrupted,
    /// The wait failed with this message.
    Failed(String),
    /// The wait timed out with nothing to read.
    TimedOut,
    /// Events arrived, with these names (none for events on the watched file itself).
    Events(Vec<String>),
    /// Reading the events failed with this message.
    ReadFailed(String),
}

/// What the KDE watcher does next.
#[derive(Debug)]
pub enum KdeWaitStep {
    /// Waiting was cancelled.
    Cancelled,
    /// The settings file changed.
    Changed,
    /// Waiting failed with this message.
    WaitFailed(String),
    /// Reading the events failed with this message.
    ReadFailed(String),
    /// Wait (again).
    Wait,
}

/// The KDE watcher's next step, given whether waiting was cancelled, what the last
/// wait came to (none before the first) and whether the directory is watched in place
/// of the file: events that concern the file, a failed wait or a failed read end the
/// watch at once; otherwise cancellation ends it, and else the watcher waits again.
pub open spec fn kde_watch_next(cancelled: bool, last: Option<InotifyWait>, watch_dir: bool) -> KdeWaitStep {
    match last {
        Some(InotifyWait::Failed(m)) => KdeWaitStep::WaitFailed(m),
        Some(InotifyWait::ReadFailed(m)) => KdeWaitStep::ReadFailed(m),
        Some(InotifyWait::Events(names)) if !watch_dir || string_views(names@).contains("kioslaverc"@) => {
            KdeWaitStep::Changed
        },
        _ => if cancelled {
            KdeWaitStep::Cancelled
        } else {
            KdeWaitStep::Wait
        },
    }
}

/// What the KDE watcher does next.
pub fn kde_wait_step(cancelled: bool, last: Option<InotifyWait>, watch_dir: bool) -> (r: KdeWaitStep)
    ensures
        r == kde_watch_next(cancelled, last, watch_dir),
        cancelled && last is None ==> r is Cancelled,
{
    match last {
        Some(InotifyWait::Failed(m)) => KdeWaitStep::WaitFailed(m),
        Some(InotifyWait::ReadFailed(m)) => KdeWaitStep::ReadFailed(m),
        Some(InotifyWait::Events(names)) => {
            if wait_kde_proxy_settings_change(watch_dir, &names) {
                KdeWaitStep::Changed
            } else if cancelled {
                KdeWaitStep::Cancelled
            } else {
                KdeWaitStep::Wait
            }
        },
        _ => if cancelled {
            KdeWaitStep::Cancelled
        } else {
            KdeWaitStep::Wait
        },
    }
}

} // verus!
