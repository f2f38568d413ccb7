//! The viewer: where it is, and how it is started.
use crate::error::RustmoteError;
use crate::path::{join_local, join_path, local_join, path_join, PathStyle};
use crate::text::{chars_of, is_digit, lemma_views_push, list_contains, opt_str, opt_view, views};
use vstd::prelude::*;

verus! {

/// A target id: nine or ten decimal digits.
pub open spec fn is_target_id(s: Seq<char>) -> bool {
    9 <= s.len() <= 10 && forall|i: int| 0 <= i < s.len() ==> is_digit(#[trigger] s[i])
}

/// A text that is known to be a target id.
#[derive(Debug, PartialEq, Eq)]
pub struct TargetId {
    pub(crate) id: String,
}

impl View for TargetId {
    type V = Seq<char>;

    closed spec fn view(&self) -> Seq<char> {
        self.id@
    }
}

impl TargetId {
    #[verifier::type_invariant]
    spec fn is_valid(self) -> bool {
        is_target_id(self.id@)
    }

    /// The target id that a text is.
    pub fn new(raw: &str) -> (r: Result<TargetId, RustmoteError>)
        ensures
            is_target_id(raw@) ==> (r matches Ok(id) && id@ == raw@),
            !is_target_id(raw@) ==> (r matches Err(e) && e@ == RustmoteError::InvalidTargetId(raw@)),
    {
        let chars = chars_of(raw);
        if chars.len() < 9 || chars.len() > 10 {
            return Err(RustmoteError::InvalidTargetId(raw.to_owned()));
        }
        let mut i: usize = 0;
        while i < chars.len()
            invariant
                i <= chars@.len(),
                chars@ == raw@,
                forall|j: int| 0 <= j < i ==> is_digit(#[trigger] chars@[j]),
            decreases chars@.len() - i,
        {
            if !('0' <= chars[i] && chars[i] <= '9') {
                assert(!is_digit(raw@[i as int]));
                return Err(RustmoteError::InvalidTargetId(raw.to_owned()));
            }
            i += 1;
        }
        Ok(TargetId { id: raw.to_owned() })
    }

    /// The id as text.
    pub fn as_str(&self) -> (r: &str)
        ensures
            r@ == self@,
            is_target_id(r@),
    {
        proof {
            use_type_invariant(self);
        }
        self.id.as_str()
    }
}

/// How a viewer is started.
#[derive(Debug, PartialEq, Eq)]
pub enum ViewerKind<T = String> {
    /// The program at a path.
    Native(T),
    /// The Flatpak application.
    Flatpak,
}

/// The view of a [`ViewerKind`].
pub type ViewerKindView = ViewerKind<Seq<char>>;

impl View for ViewerKind {
    type V = ViewerKind<Seq<char>>;

    open spec fn view(&self) -> ViewerKind<Seq<char>> {
        match self {
            ViewerKind::Native(path) => ViewerKind::Native(path@),
            ViewerKind::Flatpak => ViewerKind::Flatpak,
        }
    }
}

/// A viewer that was found.
#[derive(Debug, PartialEq, Eq)]
pub struct Viewer {
    pub kind: ViewerKind,
}

/// The platforms that differ in where the viewer is.
#[derive(Debug, Clone, Copy, PartialEq, Eq, Structural)]
pub enum Platform {
    Linux,
    Windows,
    MacOs,
    Other,
}

/// What the search for a viewer goes by.
#[derive(Debug, PartialEq, Eq)]
pub struct ViewerSearch<L = Vec<String>> {
    pub platform: Platform,
    /// The directories in which programs are looked for.
    pub path_dirs: L,
    /// The directories in which programs are installed, on Windows.
    pub program_dirs: L,
    /// The paths that are files.
    pub files: L,
    /// Whether the Flatpak application is installed.
    pub flatpak: bool,
}

/// The view of a [`ViewerSearch`].
pub type SearchView = ViewerSearch<Seq<Seq<char>>>;

impl View for ViewerSearch {
    type V = SearchView;

    open spec fn view(&self) -> SearchView {
        ViewerSearch {
            platform: self.platform,
            path_dirs: views(self.path_dirs@),
            program_dirs: views(self.program_dirs@),
            files: views(self.files@),
            flatpak: self.flatpak,
        }
    }
}

/// The first directory that has a file of a name, with the name.
pub open spec fn first_with(dirs: Seq<Seq<char>>, name: Seq<char>, files: Seq<Seq<char>>) -> Option<
    Seq<char>,
>
    decreases dirs.len(),
{
    if dirs.len() == 0 {
        None
    } else if files.contains(path_join(dirs[0], name)) {
        Some(path_join(dirs[0], name))
    } else {
        first_with(dirs.skip(1), name, files)
    }
}

/// The viewer below a directory of installed programs.
pub open spec fn windows_viewer(dir: Seq<char>) -> Seq<char> {
    local_join(
        PathStyle::Windows,
        local_join(PathStyle::Windows, dir, "RustDesk"@),
        "rustdesk.exe"@,
    )
}

/// Where the viewer may be, in the order in which it is looked for.
pub open spec fn candidates(s: SearchView) -> Seq<Seq<char>> {
    match s.platform {
        Platform::Linux => {
            let usual = seq!["/usr/bin/rustdesk"@, "/opt/rustdesk/rustdesk"@];
            match first_with(s.path_dirs, "rustdesk"@, s.files) {
                Some(path) => seq![path] + usual,
                None => usual,
            }
        },
        Platform::Windows => Seq::new(
            s.program_dirs.len(),
            |i: int| windows_viewer(s.program_dirs[i]),
        ),
        Platform::MacOs => seq!["/Applications/RustDesk.app/Contents/MacOS/rustdesk"@],
        Platform::Other => seq![],
    }
}

/// The first path that is a file.
pub open spec fn first_file(paths: Seq<Seq<char>>, files: Seq<Seq<char>>) -> Option<Seq<char>>
    decreases paths.len(),
{
    if paths.len() == 0 {
        None
    } else if files.contains(paths[0]) {
        Some(paths[0])
    } else {
        first_file(paths.skip(1), files)
    }
}

/// The viewer: the given program where it is a file, else the first candidate that is one, else the
/// Flatpak application.
pub open spec fn found_viewer(given: Option<Seq<char>>, s: SearchView) -> Option<ViewerKindView> {
    if given is Some && s.files.contains(given->0) {
        Some(ViewerKind::Native(given->0))
    } else {
        match first_file(candidates(s), s.files) {
            Some(path) => Some(ViewerKind::Native(path)),
            None => if s.platform == Platform::Linux && s.flatpak {
                Some(ViewerKind::Flatpak)
            } else {
                None
            },
        }
    }
}

/// Whether the Flatpak application counts: only on Linux, and only where no file is the viewer.
pub open spec fn flatpak_counts(given: Option<Seq<char>>, s: SearchView) -> bool {
    &&& s.platform == Platform::Linux
    &&& !(given is Some && s.files.contains(given->0))
    &&& first_file(candidates(s), s.files) is None
}

/// The paths of which a search must know whether they are files: the given program, the viewer in
/// each directory of the search path, and the usual places.
pub open spec fn places(given: Option<Seq<char>>, s: SearchView) -> Seq<Seq<char>> {
    let first = match given {
        Some(path) => seq![path],
        None => seq![],
    };
    match s.platform {
        Platform::Linux => first + Seq::new(
            s.path_dirs.len(),
            |i: int| path_join(s.path_dirs[i], "rustdesk"@),
        ) + seq!["/usr/bin/rustdesk"@, "/opt/rustdesk/rustdesk"@],
        _ => first + candidates(s),
    }
}

/// The first directory that has a file of a name, with the name.
pub fn which_on_path(name: &str, dirs: &Vec<String>, files: &Vec<String>) -> (r: Option<String>)
    ensures
        opt_view(r) == first_with(views(dirs@), name@, views(files@)),
{
    let mut i: usize = 0;
    assert(views(dirs@).skip(0) =~= views(dirs@));
    while i < dirs.len()
        invariant
            i <= dirs@.len(),
            first_with(views(dirs@).skip(i as int), name@, views(files@)) == first_with(
                views(dirs@),
                name@,
                views(files@),
            ),
        decreases dirs@.len() - i,
    {
        assert(views(dirs@).skip(i as int)[0] == dirs@[i as int]@);
        assert(views(dirs@).skip(i as int).skip(1) =~= views(dirs@).skip(i + 1));
        let path = join_path(dirs[i].as_str(), name);
        if list_contains(files, path.as_str()) {
            return Some(path);
        }
        i += 1;
    }
    None
}

fn viewer_below(dir: &str) -> (r: String)
    ensures
        r@ == windows_viewer(dir@),
{
    let below = join_local(PathStyle::Windows, dir, "RustDesk");
    join_local(PathStyle::Windows, below.as_str(), "rustdesk.exe")
}

impl ViewerSearch {
    /// Where the viewer may be, in the order in which it is looked for.
    pub fn default_candidates(&self) -> (out: Vec<String>)
        ensures
            views(out@) == candidates(self@),
    {
        let mut out: Vec<String> = Vec::new();
        match self.platform {
            Platform::Linux => {
                match which_on_path("rustdesk", &self.path_dirs, &self.files) {
                    Some(path) => {
                        out.push(path);
                    },
                    None => {},
                }
                out.push("/usr/bin/rustdesk".to_owned());
                out.push("/opt/rustdesk/rustdesk".to_owned());
                assert(views(out@) =~= candidates(self@));
            },
            Platform::Windows => {
                let mut i: usize = 0;
                assert(views(out@) =~= candidates(self@).take(0));
                while i < self.program_dirs.len()
                    invariant
                        i <= self.program_dirs@.len(),
                        self.platform == Platform::Windows,
                        views(out@) == candidates(self@).take(i as int),
                    decreases self.program_dirs@.len() - i,
                {
                    let path = viewer_below(self.program_dirs[i].as_str());
                    proof {
                        lemma_views_push(out@, path);
                        assert(self@.program_dirs[i as int] == self.program_dirs@[i as int]@);
                        assert(candidates(self@).take(i + 1) =~= candidates(self@).take(
                            i as int,
                        ).push(path@));
                    }
                    out.push(path);
                    i += 1;
                }
                assert(candidates(self@).take(i as int) =~= candidates(self@));
            },
            Platform::MacOs => {
                out.push("/Applications/RustDesk.app/Contents/MacOS/rustdesk".to_owned());
                assert(views(out@) =~= candidates(self@));
            },
            Platform::Other => {
                assert(views(out@) =~= candidates(self@));
            },
        }
        out
    }
}

impl ViewerSearch {
    /// The paths of which the search must know whether they are files.
    pub fn places(&self, override_path: Option<&str>) -> (out: Vec<String>)
        ensures
            views(out@) == places(opt_str(override_path), self@),
    {
        let ghost want = places(opt_str(override_path), self@);
        let mut out: Vec<String> = Vec::new();
        match override_path {
            Some(path) => {
                out.push(path.to_owned());
            },
            None => {},
        }
        let ghost first = views(out@);
        assert(first =~= match override_path {
            Some(path) => seq![path@],
            None => seq![],
        });
        if self.platform == Platform::Linux {
            let ghost on_path = Seq::new(
                self@.path_dirs.len(),
                |i: int| path_join(self@.path_dirs[i], "rustdesk"@),
            );
            let mut i: usize = 0;
            assert(first + on_path.take(0) =~= first);
            while i < self.path_dirs.len()
                invariant
                    i <= self.path_dirs@.len(),
                    on_path == Seq::new(
                        self@.path_dirs.len(),
                        |i: int| path_join(self@.path_dirs[i], "rustdesk"@),
                    ),
                    views(out@) == first + on_path.take(i as int),
                decreases self.path_dirs@.len() - i,
            {
                let path = join_path(self.path_dirs[i].as_str(), "rustdesk");
                proof {
                    lemma_views_push(out@, path);
                    assert(on_path[i as int] == path@);
                    assert(first + on_path.take(i + 1) =~= (first + on_path.take(i as int)).push(
                        path@,
                    ));
                }
                out.push(path);
                i += 1;
            }
            assert(on_path.take(i as int) =~= on_path);
            out.push("/usr/bin/rustdesk".to_owned());
            out.push("/opt/rustdesk/rustdesk".to_owned());
            assert(views(out@) =~= want);
        } else {
            let mut rest = self.default_candidates();
            proof {
                assert(views(out@ + rest@) =~= views(out@) + views(rest@));
            }
            out.append(&mut rest);
        }
        out
    }

    /// Whether it must be asked if the Flatpak application is installed: only on Linux, and only
    /// where no file is the viewer.
    pub fn asks_flatpak(&self, override_path: Option<&str>) -> (r: bool)
        ensures
            r == flatpak_counts(opt_str(override_path), self@),
    {
        match override_path {
            Some(path) => {
                if list_contains(&self.files, path) {
                    return false;
                }
            },
            None => {},
        }
        match first_present(&self.default_candidates(), &self.files) {
            Some(_) => false,
            None => self.platform == Platform::Linux,
        }
    }
}

fn first_present(paths: &Vec<String>, files: &Vec<String>) -> (r: Option<String>)
    ensures
        opt_view(r) == first_file(views(paths@), views(files@)),
{
    let mut i: usize = 0;
    assert(views(paths@).skip(0) =~= views(paths@));
    while i < paths.len()
        invariant
            i <= paths@.len(),
            first_file(views(paths@).skip(i as int), views(files@)) == first_file(
                views(paths@),
                views(files@),
            ),
        decreases paths@.len() - i,
    {
        assert(views(paths@).skip(i as int)[0] == paths@[i as int]@);
        assert(views(paths@).skip(i as int).skip(1) =~= views(paths@).skip(i + 1));
        if list_contains(files, paths[i].as_str()) {
            return Some(paths[i].clone());
        }
        i += 1;
    }
    None
}

/// The program and the arguments that start a viewer.
#[derive(Debug, PartialEq, Eq)]
pub struct ViewerCommand<T = String, L = Vec<String>> {
    pub program: T,
    pub args: L,
}

/// The view of a [`ViewerCommand`].
pub type ViewerCommandView = ViewerCommand<Seq<char>, Seq<Seq<char>>>;

impl View for ViewerCommand {
    type V = ViewerCommandView;

    open spec fn view(&self) -> ViewerCommandView {
        ViewerCommand { program: self.program@, args: views(self.args@) }
    }
}

/// How it is asked whether the Flatpak application is installed.
pub open spec fn inquiry_of(flatpak: Seq<char>) -> ViewerCommandView {
    ViewerCommand { program: flatpak, args: seq!["info"@, "com.rustdesk.RustDesk"@] }
}

/// How it is asked whether the Flatpak application is installed: by the first Flatpak on the search
/// path, of which the files are given. Without one there is nothing to ask.
pub fn flatpak_inquiry(dirs: &Vec<String>, files: &Vec<String>) -> (r: Option<ViewerCommand>)
    ensures
        match first_with(views(dirs@), "flatpak"@, views(files@)) {
            Some(flatpak) => r matches Some(command) && command@ == inquiry_of(flatpak),
            None => r is None,
        },
{
    match which_on_path("flatpak", dirs, files) {
        Some(program) => {
            let mut args: Vec<String> = Vec::new();
            args.push("info".to_owned());
            args.push("com.rustdesk.RustDesk".to_owned());
            assert(views(args@) =~= inquiry_of(program@).args);
            Some(ViewerCommand { program, args })
        },
        None => None,
    }
}

/// How a viewer is started on a target.
pub open spec fn launch_command(kind: ViewerKindView, target: Seq<char>) -> ViewerCommandView {
    match kind {
        ViewerKind::Native(path) => ViewerCommand {
            program: path,
            args: seq!["--connect"@, target],
        },
        ViewerKind::Flatpak => ViewerCommand {
            program: "flatpak"@,
            args: seq!["run"@, "com.rustdesk.RustDesk"@, "--connect"@, target],
        },
    }
}

impl Viewer {
    /// Finds the viewer.
    pub fn detect(search: &ViewerSearch) -> (r: Result<Viewer, RustmoteError>)
        ensures
            match found_viewer(None, search@) {
                Some(kind) => r matches Ok(v) && v.kind@ == kind,
                None => r matches Err(e) && e@ == RustmoteError::<Seq<char>>::ViewerNotFound,
            },
    {
        Viewer::detect_with_override(None, search)
    }

    /// Finds the viewer; a given program counts first, where it is a file.
    pub fn detect_with_override(override_path: Option<&str>, search: &ViewerSearch) -> (r: Result<
        Viewer,
        RustmoteError,
    >)
        ensures
            match found_viewer(opt_str(override_path), search@) {
                Some(kind) => r matches Ok(v) && v.kind@ == kind,
                None => r matches Err(e) && e@ == RustmoteError::<Seq<char>>::ViewerNotFound,
            },
    {
        match override_path {
            Some(path) => {
                if list_contains(&search.files, path) {
                    return Ok(Viewer { kind: ViewerKind::Native(path.to_owned()) });
                }
            },
            None => {},
        }
        match first_present(&search.default_candidates(), &search.files) {
            Some(path) => Ok(Viewer { kind: ViewerKind::Native(path) }),
            None => if search.platform == Platform::Linux && search.flatpak {
                Ok(Viewer { kind: ViewerKind::Flatpak })
            } else {
                Err(RustmoteError::ViewerNotFound)
            },
        }
    }

    /// How the viewer is started.
    pub fn kind(&self) -> (r: &ViewerKind)
        ensures
            *r == self.kind,
    {
        &self.kind
    }

    /// The program and the arguments that start the viewer on a target.
    pub fn command(&self, target: &TargetId) -> (r: ViewerCommand)
        ensures
            r@ == launch_command(self.kind@, target@),
            is_target_id(target@),
    {
        let id = target.as_str();
        let mut args: Vec<String> = Vec::new();
        match &self.kind {
            ViewerKind::Native(path) => {
                args.push("--connect".to_owned());
                args.push(id.to_owned());
                assert(views(args@) =~= seq!["--connect"@, target@]);
                ViewerCommand { program: path.clone(), args }
            },
            ViewerKind::Flatpak => {
                args.push("run".to_owned());
                args.push("com.rustdesk.RustDesk".to_owned());
                args.push("--connect".to_owned());
                args.push(id.to_owned());
                assert(views(args@) =~= seq![
                    "run"@,
                    "com.rustdesk.RustDesk"@,
                    "--connect"@,
                    target@,
                ]);
                ViewerCommand { program: "flatpak".to_owned(), args }
            },
        }
    }
}

proof fn lemma_first_file(paths: Seq<Seq<char>>, files: Seq<Seq<char>>)
    ensures
        first_file(paths, files) matches Some(path) ==> files.contains(path) && paths.contains(
            path,
        ),
        first_file(paths, files) is None <==> forall|i: int|
            0 <= i < paths.len() ==> !files.contains(#[trigger] paths[i]),
    decreases paths.len(),
{
    if paths.len() > 0 {
        let rest = paths.skip(1);
        lemma_first_file(rest, files);
        if !files.contains(paths[0]) {
            match first_file(rest, files) {
                Some(path) => {
                    let i = choose|i: int| 0 <= i < rest.len() && rest[i] == path;
                    assert(paths[i + 1] == path);
                },
                None => {
                    assert forall|i: int| 0 <= i < paths.len() implies !files.contains(
                        #[trigger] paths[i],
                    ) by {
                        if i > 0 {
                            assert(rest[i - 1] == paths[i]);
                        }
                    }
                },
            }
        } else {
            assert(paths.contains(paths[0]));
        }
    }
}

/// No program is started that is not a file: the given one or a candidate. A given program that is
/// no file is as good as none.
pub proof fn only_files_are_started(given: Option<Seq<char>>, s: SearchView)
    ensures
        found_viewer(given, s) matches Some(ViewerKind::Native(path)) ==> s.files.contains(path)
            && (given == Some(path) || candidates(s).contains(path)),
        given is Some && !s.files.contains(given->0) ==> found_viewer(given, s) == found_viewer(
            None,
            s,
        ),
        found_viewer(given, s) is None ==> forall|i: int|
            0 <= i < candidates(s).len() ==> !s.files.contains(#[trigger] candidates(s)[i]),
{
    lemma_first_file(candidates(s), s.files);
}

proof fn lemma_first_with(
    dirs: Seq<Seq<char>>,
    name: Seq<char>,
    files: Seq<Seq<char>>,
    others: Seq<Seq<char>>,
)
    requires
        forall|i: int|
            0 <= i < dirs.len() ==> files.contains(#[trigger] path_join(dirs[i], name))
                == others.contains(path_join(dirs[i], name)),
    ensures
        first_with(dirs, name, files) == first_with(dirs, name, others),
    decreases dirs.len(),
{
    if dirs.len() > 0 {
        let rest = dirs.skip(1);
        assert(files.contains(path_join(dirs[0], name)) == others.contains(
            path_join(dirs[0], name),
        ));
        assert forall|i: int| 0 <= i < rest.len() implies files.contains(
            #[trigger] path_join(rest[i], name),
        ) == others.contains(path_join(rest[i], name)) by {
            assert(rest[i] == dirs[i + 1]);
        }
        lemma_first_with(rest, name, files, others);
    }
}

proof fn lemma_first_with_is_below(dirs: Seq<Seq<char>>, name: Seq<char>, files: Seq<Seq<char>>)
    ensures
        first_with(dirs, name, files) matches Some(path) ==> exists|i: int|
            0 <= i < dirs.len() && path == #[trigger] path_join(dirs[i], name),
    decreases dirs.len(),
{
    if dirs.len() > 0 {
        let rest = dirs.skip(1);
        lemma_first_with_is_below(rest, name, files);
        if files.contains(path_join(dirs[0], name)) {
        } else if let Some(path) = first_with(rest, name, files) {
            let i = choose|i: int| 0 <= i < rest.len() && path == #[trigger] path_join(rest[i], name);
            assert(path == path_join(dirs[i + 1], name));
        }
    }
}

proof fn lemma_first_file_same(
    paths: Seq<Seq<char>>,
    files: Seq<Seq<char>>,
    others: Seq<Seq<char>>,
)
    requires
        forall|i: int|
            0 <= i < paths.len() ==> files.contains(#[trigger] paths[i]) == others.contains(
                paths[i],
            ),
    ensures
        first_file(paths, files) == first_file(paths, others),
    decreases paths.len(),
{
    if paths.len() > 0 {
        let rest = paths.skip(1);
        assert forall|i: int| 0 <= i < rest.len() implies files.contains(#[trigger] rest[i])
            == others.contains(rest[i]) by {
            assert(rest[i] == paths[i + 1]);
        }
        assert(files.contains(paths[0]) == others.contains(paths[0]));
        lemma_first_file_same(rest, files, others);
    }
}

/// A search needs to know of no other paths than its places whether they are files, and of Flatpak
/// only where it counts: two searches that agree on that find the same viewer.
pub proof fn only_places_count(
    given: Option<Seq<char>>,
    s: SearchView,
    files: Seq<Seq<char>>,
    flatpak: bool,
)
    requires
        forall|i: int|
            0 <= i < places(given, s).len() ==> s.files.contains(#[trigger] places(given, s)[i])
                == files.contains(places(given, s)[i]),
        flatpak_counts(given, s) ==> flatpak == s.flatpak,
    ensures
        found_viewer(given, ViewerSearch { files, flatpak, ..s }) == found_viewer(given, s),
{
    let other = ViewerSearch { files, flatpak, ..s };
    let all = places(given, s);
    let n: int = if given is Some { 1 } else { 0 };
    if given is Some {
        assert(all[0] == given->0);
    }
    if s.platform == Platform::Linux {
        let name = "rustdesk"@;
        let count = s.path_dirs.len();
        assert forall|i: int| 0 <= i < count implies s.files.contains(
            #[trigger] path_join(s.path_dirs[i], name),
        ) == files.contains(path_join(s.path_dirs[i], name)) by {
            assert(all[n + i] == path_join(s.path_dirs[i], name));
        }
        lemma_first_with(s.path_dirs, name, s.files, files);
        lemma_first_with_is_below(s.path_dirs, name, s.files);
        let usual = seq!["/usr/bin/rustdesk"@, "/opt/rustdesk/rustdesk"@];
        assert(all[n + count] == usual[0]);
        assert(all[n + count + 1] == usual[1]);
        let tried = candidates(s);
        assert forall|i: int| 0 <= i < tried.len() implies s.files.contains(#[trigger] tried[i])
            == files.contains(tried[i]) by {
            if let Some(path) = first_with(s.path_dirs, name, s.files) {
                if i > 0 {
                    assert(tried[i] == usual[i - 1]);
                }
            } else {
                assert(tried[i] == usual[i]);
            }
        }
        lemma_first_file_same(tried, s.files, files);
        assert(candidates(other) == tried);
    } else {
        let tried = candidates(s);
        assert forall|i: int| 0 <= i < tried.len() implies s.files.contains(#[trigger] tried[i])
            == files.contains(tried[i]) by {
            assert(all[n + i] == tried[i]);
        }
        lemma_first_file_same(tried, s.files, files);
        assert(candidates(other) == tried);
    }
}

/// The places where the viewer is looked for besides the given program, from the first to the last:
/// on Linux in each directory of the search path and then in two usual places, on Windows below
/// each directory of installed programs, on macOS among the applications.
pub open spec fn search_order(s: SearchView) -> Seq<Seq<char>> {
    match s.platform {
        Platform::Linux => Seq::new(
            s.path_dirs.len() + 2,
            |i: int|
                if i < s.path_dirs.len() {
                    path_join(s.path_dirs[i], "rustdesk"@)
                } else if i == s.path_dirs.len() {
                    "/usr/bin/rustdesk"@
                } else {
                    "/opt/rustdesk/rustdesk"@
                },
        ),
        Platform::Windows => Seq::new(
            s.program_dirs.len(),
            |i: int|
                local_join(
                    PathStyle::Windows,
                    local_join(PathStyle::Windows, s.program_dirs[i], "RustDesk"@),
                    "rustdesk.exe"@,
                ),
        ),
        Platform::MacOs => seq!["/Applications/RustDesk.app/Contents/MacOS/rustdesk"@],
        Platform::Other => seq![],
    }
}

/// Whether a place is the first at which there is a file.
pub open spec fn is_first_there(order: Seq<Seq<char>>, files: Seq<Seq<char>>, at: int) -> bool {
    &&& 0 <= at < order.len()
    &&& files.contains(order[at])
    &&& forall|j: int| 0 <= j < at ==> !files.contains(#[trigger] order[j])
}

proof fn lemma_first_file_at(paths: Seq<Seq<char>>, files: Seq<Seq<char>>)
    ensures
        match first_file(paths, files) {
            Some(path) => exists|at: int| #[trigger]
                is_first_there(paths, files, at) && paths[at] == path,
            None => forall|j: int| 0 <= j < paths.len() ==> !files.contains(#[trigger] paths[j]),
        },
    decreases paths.len(),
{
    if paths.len() > 0 {
        let rest = paths.skip(1);
        lemma_first_file_at(rest, files);
        assert forall|j: int| 0 <= j < rest.len() implies rest[j] == paths[j + 1] by {}
        if files.contains(paths[0]) {
            assert(is_first_there(paths, files, 0));
        } else if let Some(path) = first_file(rest, files) {
            let at = choose|at: int| #[trigger]
                is_first_there(rest, files, at) && rest[at] == path;
            assert forall|j: int| 0 <= j < at + 1 implies !files.contains(#[trigger] paths[j]) by {
                if j > 0 {
                    assert(rest[j - 1] == paths[j]);
                }
            }
            assert(is_first_there(paths, files, at + 1));
        } else {
            assert forall|j: int| 0 <= j < paths.len() implies !files.contains(
                #[trigger] paths[j],
            ) by {
                if j > 0 {
                    assert(rest[j - 1] == paths[j]);
                }
            }
        }
    }
}

proof fn lemma_first_with_at(dirs: Seq<Seq<char>>, name: Seq<char>, files: Seq<Seq<char>>)
    ensures
        ({
            let paths = Seq::new(dirs.len(), |i: int| path_join(dirs[i], name));
            first_with(dirs, name, files) == first_file(paths, files)
        }),
    decreases dirs.len(),
{
    if dirs.len() > 0 {
        let paths = Seq::new(dirs.len(), |i: int| path_join(dirs[i], name));
        let rest = dirs.skip(1);
        lemma_first_with_at(rest, name, files);
        assert(paths.skip(1) =~= Seq::new(rest.len(), |i: int| path_join(rest[i], name)));
    }
}

proof fn lemma_searched_in_order(s: SearchView)
    ensures
        first_file(candidates(s), s.files) == first_file(search_order(s), s.files),
{
    match s.platform {
        Platform::Linux => {
            let on_path = Seq::new(
                s.path_dirs.len(),
                |i: int| path_join(s.path_dirs[i], "rustdesk"@),
            );
            let usual = seq!["/usr/bin/rustdesk"@, "/opt/rustdesk/rustdesk"@];
            lemma_first_with_at(s.path_dirs, "rustdesk"@, s.files);
            lemma_first_file_at(on_path, s.files);
            lemma_first_of_two(on_path, usual, s.files);
            assert(search_order(s) =~= on_path + usual);
            if let Some(path) = first_file(on_path, s.files) {
                assert(candidates(s)[0] == path);
            }
        },
        Platform::Windows => {
            assert(candidates(s) =~= search_order(s));
        },
        _ => {},
    }
}

proof fn lemma_first_of_two(a: Seq<Seq<char>>, b: Seq<Seq<char>>, files: Seq<Seq<char>>)
    ensures
        first_file(a + b, files) == match first_file(a, files) {
            Some(path) => Some(path),
            None => first_file(b, files),
        },
    decreases a.len(),
{
    if a.len() == 0 {
        assert(a + b =~= b);
    } else {
        lemma_first_of_two(a.skip(1), b, files);
        assert((a + b).skip(1) =~= a.skip(1) + b);
    }
}

/// The viewer is the given program where that is a file; else the first place of the search order
/// at which there is a file; else, on Linux only, the Flatpak application where it is installed.
/// Where none of these is there, no viewer is found.
pub proof fn viewers_are_searched_for_in_order(
    given: Option<&str>,
    search: &ViewerSearch,
    r: Result<Viewer, RustmoteError>,
)
    requires
        call_ensures(Viewer::detect_with_override, (given, search), r),
    ensures
        ({
            let order = search_order(search@);
            let files = views(search.files@);
            let is_given = given is Some && files.contains(given->0@);
            let nowhere = !is_given && forall|j: int|
                0 <= j < order.len() ==> !files.contains(#[trigger] order[j]);
            match r {
                Ok(viewer) => match viewer.kind {
                    ViewerKind::Native(path) => {
                        ||| is_given && path@ == given->0@
                        ||| !is_given && exists|at: int| #[trigger]
                            is_first_there(order, files, at) && order[at] == path@
                    },
                    ViewerKind::Flatpak => nowhere && search.platform == Platform::Linux
                        && search.flatpak,
                },
                Err(_) => nowhere && !(search.platform == Platform::Linux && search.flatpak),
            }
        }),
{
    lemma_searched_in_order(search@);
    lemma_first_file_at(search_order(search@), views(search.files@));
}

/// A viewer is started on a target by its own program, with `--connect` and the target as the last
/// two arguments. A native viewer gets no others; the Flatpak application is run by Flatpak.
pub proof fn viewers_are_started_on_the_target(viewer: &Viewer, target: &TargetId, r: ViewerCommand)
    requires
        call_ensures(Viewer::command, (viewer, target), r),
    ensures
        ({
            let args = views(r.args@);
            &&& args.len() >= 2
            &&& args[args.len() - 2] == "--connect"@
            &&& args[args.len() - 1] == target@
            &&& match viewer.kind {
                ViewerKind::Native(path) => r.program@ == path@ && args.len() == 2,
                ViewerKind::Flatpak => r.program@ == "flatpak"@ && args.len() == 4 && args[0]
                    == "run"@ && args[1] == "com.rustdesk.RustDesk"@,
            }
        }),
{
}

/// Whether the Flatpak application is there is asked of the first Flatpak on the search path, for
/// the viewer's name there; without one there is nothing to ask.
pub proof fn first_flatpak_is_asked(
    dirs: &Vec<String>,
    files: &Vec<String>,
    r: Option<ViewerCommand>,
)
    requires
        call_ensures(flatpak_inquiry, (dirs, files), r),
    ensures
        ({
            let places = Seq::new(dirs@.len(), |i: int| path_join(dirs@[i]@, "flatpak"@));
            match r {
                Some(command) => {
                    &&& exists|at: int| #[trigger]
                        is_first_there(places, views(files@), at) && places[at] == command.program@
                    &&& views(command.args@) == seq!["info"@, "com.rustdesk.RustDesk"@]
                },
                None => forall|j: int|
                    0 <= j < places.len() ==> !views(files@).contains(#[trigger] places[j]),
            }
        }),
{
    let all = views(dirs@);
    let places = Seq::new(dirs@.len(), |i: int| path_join(dirs@[i]@, "flatpak"@));
    lemma_first_with_at(all, "flatpak"@, views(files@));
    assert(Seq::new(all.len(), |i: int| path_join(all[i], "flatpak"@)) =~= places);
    lemma_first_file_at(places, views(files@));
}

} // verus!
