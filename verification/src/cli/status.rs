//! Summing up what is configured.
use crate::cli::config::{default_server_text, row, Row, RowView};
use crate::config::{Config, ConfigView};
use crate::credentials::{mode_name, CredentialMode};
use crate::session::known_hosts::{HostKeyView, KnownHosts};
use crate::text::{concat, decimal, opt_clone, opt_view, text_decimal, views};
use crate::viewer::{found_viewer, SearchView, Viewer, ViewerKind, ViewerKindView, ViewerSearch};
use vstd::prelude::*;

verus! {

/// Which viewer there is.
#[derive(Debug, PartialEq, Eq)]
pub enum ViewerStatus<T = String> {
    Native { path: T },
    Flatpak,
    NotFound,
}

/// The view of a [`ViewerStatus`].
pub type ViewerStatusView = ViewerStatus<Seq<char>>;

impl View for ViewerStatus {
    type V = ViewerStatus<Seq<char>>;

    open spec fn view(&self) -> ViewerStatus<Seq<char>> {
        match self {
            ViewerStatus::Native { path } => ViewerStatus::Native { path: path@ },
            ViewerStatus::Flatpak => ViewerStatus::Flatpak,
            ViewerStatus::NotFound => ViewerStatus::NotFound,
        }
    }
}

/// What is configured.
#[derive(Debug, PartialEq, Eq)]
pub struct StatusReport<T = String, V = ViewerStatus, N = usize> {
    pub config_path: T,
    pub credential_mode: T,
    pub default_server: Option<T>,
    pub servers: N,
    pub targets: N,
    pub viewer: V,
    pub pinned_hosts: N,
}

/// The view of a [`StatusReport`].
pub type StatusReportView = StatusReport<Seq<char>, ViewerStatusView, nat>;

impl View for StatusReport {
    type V = StatusReportView;

    open spec fn view(&self) -> StatusReportView {
        StatusReport {
            config_path: self.config_path@,
            credential_mode: self.credential_mode@,
            default_server: opt_view(self.default_server),
            servers: self.servers as nat,
            targets: self.targets as nat,
            viewer: self.viewer@,
            pinned_hosts: self.pinned_hosts as nat,
        }
    }
}

/// Which viewer a search finds.
pub open spec fn viewer_status(found: Option<ViewerKindView>) -> ViewerStatusView {
    match found {
        Some(ViewerKind::Native(path)) => ViewerStatus::Native { path },
        Some(ViewerKind::Flatpak) => ViewerStatus::Flatpak,
        None => ViewerStatus::NotFound,
    }
}

/// What is configured.
pub open spec fn summary(
    cfg: ConfigView,
    config_path: Seq<char>,
    known: Map<Seq<char>, HostKeyView>,
    search: SearchView,
) -> StatusReportView {
    StatusReport {
        config_path,
        credential_mode: mode_name(cfg.general.credential_mode),
        default_server: cfg.general.default_server,
        servers: cfg.servers.len(),
        targets: cfg.targets.len(),
        viewer: viewer_status(
            found_viewer(
                if cfg.general.viewer_path.len() == 0 {
                    None
                } else {
                    Some(cfg.general.viewer_path)
                },
                search,
            ),
        ),
        pinned_hosts: known.dom().len(),
    }
}

/// How a viewer is shown.
pub open spec fn viewer_text(viewer: ViewerStatusView) -> Seq<char> {
    match viewer {
        ViewerStatus::Native { path } => "native: "@ + path,
        ViewerStatus::Flatpak => "flatpak (com.rustdesk.RustDesk)"@,
        ViewerStatus::NotFound => "not found"@,
    }
}

/// The report as it is shown.
pub open spec fn report_rows(r: StatusReportView) -> Seq<RowView> {
    seq![
        Row { key: "config_path"@, value: r.config_path },
        Row { key: "credential_mode"@, value: r.credential_mode },
        Row {
            key: "default_server"@,
            value: match r.default_server {
                Some(name) => name,
                None => "(none)"@,
            },
        },
        Row { key: "servers"@, value: decimal(r.servers) },
        Row { key: "targets"@, value: decimal(r.targets) },
        Row { key: "viewer"@, value: viewer_text(r.viewer) },
        Row { key: "pinned_hosts"@, value: decimal(r.pinned_hosts) },
    ]
}

impl StatusReport {
    /// Sums up what is configured.
    pub fn build(
        cfg: &Config,
        config_path: &str,
        known_hosts: &KnownHosts,
        search: &ViewerSearch,
    ) -> (r: StatusReport)
        ensures
            r@ == summary(cfg@, config_path@, known_hosts@, search@),
    {
        let viewer = match Viewer::detect_with_override(cfg.general.viewer_override(), search) {
            Ok(v) => match v.kind {
                ViewerKind::Native(path) => ViewerStatus::Native { path },
                ViewerKind::Flatpak => ViewerStatus::Flatpak,
            },
            Err(_) => ViewerStatus::NotFound,
        };
        StatusReport {
            config_path: config_path.to_owned(),
            credential_mode: cfg.general.credential_mode.as_str().to_owned(),
            default_server: opt_clone(&cfg.general.default_server),
            servers: cfg.servers.len(),
            targets: cfg.targets.len(),
            viewer,
            pinned_hosts: known_hosts.entries.len(),
        }
    }

    /// The rows of the table that shows the report.
    pub fn rows(&self) -> (out: Vec<Row>)
        ensures
            views(out@) == report_rows(self@),
    {
        let viewer = match &self.viewer {
            ViewerStatus::Native { path } => concat("native: ", path.as_str()),
            ViewerStatus::Flatpak => "flatpak (com.rustdesk.RustDesk)".to_owned(),
            ViewerStatus::NotFound => "not found".to_owned(),
        };
        let mut out: Vec<Row> = Vec::new();
        out.push(row("config_path", self.config_path.clone()));
        out.push(row("credential_mode", self.credential_mode.clone()));
        out.push(row("default_server", default_server_text(&self.default_server)));
        out.push(row("servers", text_decimal(self.servers as u64)));
        out.push(row("targets", text_decimal(self.targets as u64)));
        out.push(row("viewer", viewer));
        out.push(row("pinned_hosts", text_decimal(self.pinned_hosts as u64)));
        assert(views(out@) =~= report_rows(self@));
        out
    }
}

/// The report says what is configured: how many servers and targets are registered and how many
/// keys are pinned, the mode, the default server, and the viewer that a search finds, for which the
/// configured program counts first.
pub proof fn reports_say_what_is_configured(
    cfg: &Config,
    config_path: &str,
    known_hosts: &KnownHosts,
    search: &ViewerSearch,
    r: StatusReport,
)
    requires
        call_ensures(StatusReport::build, (cfg, config_path, known_hosts, search), r),
    ensures
        r.config_path@ == config_path@,
        r.credential_mode@ == match cfg.general.credential_mode {
            CredentialMode::Prompt => "prompt"@,
            CredentialMode::Keychain => "keychain"@,
            CredentialMode::Unsafe => "unsafe"@,
        },
        opt_view(r.default_server) == opt_view(cfg.general.default_server),
        r.servers == cfg.servers@.len(),
        r.targets == cfg.targets@.len(),
        r.pinned_hosts == known_hosts@.dom().len(),
        ({
            let given = cfg.general.viewer_path@;
            let found = found_viewer(
                if given.len() > 0 {
                    Some(given)
                } else {
                    None
                },
                search@,
            );
            match r.viewer {
                ViewerStatus::Native { path } => found == Some(ViewerKindView::Native(path@)),
                ViewerStatus::Flatpak => found == Some(ViewerKindView::Flatpak),
                ViewerStatus::NotFound => found is None,
            }
        }),
{
}

/// The table of the report shows each of its fields under the name of the field.
pub proof fn tables_show_the_report(report: &StatusReport, r: Vec<Row>)
    requires
        call_ensures(StatusReport::rows, (report,), r),
    ensures
        ({
            let rows = views(r@);
            &&& rows.len() == 7
            &&& rows.contains(Row { key: "config_path"@, value: report.config_path@ })
            &&& rows.contains(Row { key: "credential_mode"@, value: report.credential_mode@ })
            &&& report.default_server matches Some(name) ==> rows.contains(
                Row { key: "default_server"@, value: name@ },
            )
            &&& report.default_server is None ==> rows.contains(
                Row { key: "default_server"@, value: "(none)"@ },
            )
            &&& rows.contains(Row { key: "servers"@, value: decimal(report.servers as nat) })
            &&& rows.contains(Row { key: "targets"@, value: decimal(report.targets as nat) })
            &&& report.viewer matches ViewerStatus::Native { path } ==> rows.contains(
                Row { key: "viewer"@, value: "native: "@ + path@ },
            )
            &&& report.viewer is Flatpak ==> rows.contains(
                Row { key: "viewer"@, value: "flatpak (com.rustdesk.RustDesk)"@ },
            )
            &&& report.viewer is NotFound ==> rows.contains(
                Row { key: "viewer"@, value: "not found"@ },
            )
            &&& rows.contains(
                Row { key: "pinned_hosts"@, value: decimal(report.pinned_hosts as nat) },
            )
        }),
{
    let rows = views(r@);
    assert(rows[0].key == "config_path"@ && rows[1].key == "credential_mode"@);
    assert(rows[2].key == "default_server"@ && rows[3].key == "servers"@);
    assert(rows[4].key == "targets"@ && rows[5].key == "viewer"@);
    assert(rows[6].key == "pinned_hosts"@);
}

} // verus!
