//! Where detectors look: the locations of one machine, resolved from a
//! snapshot of its environment, or laid out under one directory for a
//! sandbox.

use vstd::prelude::*;
use crate::paths::{join, spec_join, path_within, is_single_name, no_sep, lemma_join_within, lemma_within_transitive, windows_style};

verus! {

/// All locations a detector may need.
pub struct Ctx {
    pub home: String,
    pub local_app_data: String,
    pub cargo_home: String,
    pub rustup_home: String,
    pub pub_cache: String,
    pub android_sdk: Option<String>,
    pub npm_cache: String,
    pub pnpm_store: String,
    pub yarn_cache: String,
    pub pip_cache: String,
    pub uv_cache: String,
    pub gradle_home: String,
    pub temp_dir: String,
    /// Windows installation root (report-only detectors); `None` where
    /// there is none.
    pub system_root: Option<String>,
    pub go_build_cache: String,
    pub go_mod_cache: String,
    pub docker_data_files: Vec<String>,
    /// Roots walked to find project artifact dirs (`target/`, `build/`, ...).
    pub project_roots: Vec<String>,
    pub docker_enabled: bool,
}

/// What the environment says about one machine: variables (unset is
/// `None`), the platform's own answers, and two directory checks.
pub struct EnvSnapshot {
    /// The platform's home directory, if it knows one.
    pub platform_home: Option<String>,
    /// The platform's local data directory, if it knows one.
    pub platform_local_data: Option<String>,
    /// The current directory, if readable.
    pub current_dir: Option<String>,
    /// The current directory is a directory.
    pub current_dir_is_dir: bool,
    /// The OS temp directory.
    pub temp_dir: String,
    pub windows: bool,
    pub macos: bool,
    pub user_profile: Option<String>,
    pub home_var: Option<String>,
    pub local_app_data: Option<String>,
    pub cargo_home: Option<String>,
    pub rustup_home: Option<String>,
    pub pub_cache: Option<String>,
    pub android_sdk_root: Option<String>,
    pub android_home: Option<String>,
    /// `<local data>/Android/Sdk` is a directory.
    pub default_android_sdk_is_dir: bool,
    pub npm_config_cache: Option<String>,
    pub npm_config_cache_upper: Option<String>,
    pub yarn_cache_folder: Option<String>,
    pub pip_cache_dir: Option<String>,
    pub xdg_cache_home: Option<String>,
    pub uv_cache_dir: Option<String>,
    pub gradle_user_home: Option<String>,
    pub system_root: Option<String>,
    pub go_path: Option<String>,
    pub go_cache: Option<String>,
    pub go_mod_cache: Option<String>,
}

/// The view of an optional text.
pub open spec fn opt_view(o: Option<String>) -> Option<Seq<char>> {
    match o {
        Some(s) => Some(s@),
        None => None,
    }
}

/// A variable as a path: set and non-empty.
pub open spec fn var_of(v: Option<String>) -> Option<Seq<char>> {
    match v {
        Some(s) => if s@.len() > 0 { Some(s@) } else { None },
        None => None,
    }
}

/// The value, or the default.
pub open spec fn or_default(o: Option<Seq<char>>, d: Seq<char>) -> Seq<char> {
    match o {
        Some(s) => s,
        None => d,
    }
}

/// The first present of two.
pub open spec fn or_else(a: Option<Seq<char>>, b: Option<Seq<char>>) -> Option<Seq<char>> {
    match a {
        Some(s) => Some(s),
        None => b,
    }
}

/// `base` joined with two components.
pub open spec fn join2(base: Seq<char>, a: Seq<char>, b: Seq<char>) -> Seq<char> {
    spec_join(spec_join(base, a), b)
}

/// The home directory: the platform's, else `USERPROFILE`, else `HOME`,
/// else the current directory, else `.`.
pub open spec fn resolved_home(env: EnvSnapshot) -> Seq<char> {
    or_default(
        or_else(or_else(or_else(opt_view(env.platform_home), var_of(env.user_profile)), var_of(env.home_var)), opt_view(env.current_dir)),
        "."@,
    )
}

/// The local data directory: `LOCALAPPDATA`, else the platform's, else
/// `<home>/AppData/Local`.
pub open spec fn resolved_local(env: EnvSnapshot) -> Seq<char> {
    or_default(
        or_else(var_of(env.local_app_data), opt_view(env.platform_local_data)),
        join2(resolved_home(env), "AppData"@, "Local"@),
    )
}

/// An absolute path where `XDG_CACHE_HOME` applies (not on Windows):
/// one that starts with `/`.
pub open spec fn unix_absolute(x: Seq<char>) -> bool {
    x.len() > 0 && x[0] == '/'
}

/// `XDG_CACHE_HOME` when absolute, else `fallback`.
pub open spec fn xdg_cache_or(env: EnvSnapshot, fallback: Seq<char>) -> Seq<char> {
    match var_of(env.xdg_cache_home) {
        Some(x) => if unix_absolute(x) { x } else { fallback },
        None => fallback,
    }
}

/// The pip cache: `PIP_CACHE_DIR`, else the platform default.
pub open spec fn resolved_pip(env: EnvSnapshot) -> Seq<char> {
    let home = resolved_home(env);
    or_default(
        var_of(env.pip_cache_dir),
        if env.windows {
            join2(resolved_local(env), "pip"@, "Cache"@)
        } else if env.macos {
            spec_join(xdg_cache_or(env, spec_join(home, "Library/Caches"@)), "pip"@)
        } else {
            spec_join(xdg_cache_or(env, spec_join(home, ".cache"@)), "pip"@)
        },
    )
}

/// The uv cache: `UV_CACHE_DIR`, else the platform default.
pub open spec fn resolved_uv(env: EnvSnapshot) -> Seq<char> {
    or_default(
        var_of(env.uv_cache_dir),
        if env.windows {
            join2(resolved_local(env), "uv"@, "cache"@)
        } else {
            spec_join(xdg_cache_or(env, spec_join(resolved_home(env), ".cache"@)), "uv"@)
        },
    )
}

/// The Go build cache: `GOCACHE`, else the platform default.
pub open spec fn resolved_go_build(env: EnvSnapshot) -> Seq<char> {
    or_default(
        var_of(env.go_cache),
        if env.windows {
            spec_join(resolved_local(env), "go-build"@)
        } else {
            spec_join(xdg_cache_or(env, spec_join(resolved_home(env), ".cache"@)), "go-build"@)
        },
    )
}

/// The npm cache: `npm_config_cache`, else `NPM_CONFIG_CACHE`, else the
/// platform default.
pub open spec fn resolved_npm(env: EnvSnapshot) -> Seq<char> {
    or_default(
        or_else(var_of(env.npm_config_cache), var_of(env.npm_config_cache_upper)),
        if env.windows {
            spec_join(resolved_local(env), "npm-cache"@)
        } else {
            spec_join(resolved_home(env), ".npm"@)
        },
    )
}

/// The Android SDK: `ANDROID_SDK_ROOT`, else `ANDROID_HOME`, else the
/// default location when it is a directory.
pub open spec fn resolved_android(env: EnvSnapshot) -> Option<Seq<char>> {
    match or_else(var_of(env.android_sdk_root), var_of(env.android_home)) {
        Some(p) => Some(p),
        None => if env.default_android_sdk_is_dir {
            Some(join2(resolved_local(env), "Android"@, "Sdk"@))
        } else {
            None
        },
    }
}

/// The Windows root: `SystemRoot`, else `C:\Windows` on Windows.
pub open spec fn resolved_system_root(env: EnvSnapshot) -> Option<Seq<char>> {
    match var_of(env.system_root) {
        Some(p) => Some(p),
        None => if env.windows { Some("C:\\Windows"@) } else { None },
    }
}

/// The default project root: the current directory when it is one,
/// else home.
pub open spec fn resolved_project_root(env: EnvSnapshot) -> Seq<char> {
    match env.current_dir {
        Some(c) => if env.current_dir_is_dir { c@ } else { resolved_home(env) },
        None => resolved_home(env),
    }
}

/// A variable as a path: set and non-empty.
fn var_path(v: &Option<String>) -> (r: Option<String>)
    ensures
        opt_view(r) == var_of(*v),
{
    match v {
        Some(s) => if s.unicode_len() > 0 { Some(s.clone()) } else { None },
        None => None,
    }
}

/// A copy of an optional text.
fn copy_opt(v: &Option<String>) -> (r: Option<String>)
    ensures
        opt_view(r) == opt_view(*v),
{
    match v {
        Some(s) => Some(s.clone()),
        None => None,
    }
}

/// The first present of two.
fn first_of(a: Option<String>, b: Option<String>) -> (r: Option<String>)
    ensures
        opt_view(r) == or_else(opt_view(a), opt_view(b)),
{
    match a {
        Some(s) => Some(s),
        None => b,
    }
}

/// The value, or `base` joined with `name`.
fn or_join(v: Option<String>, base: &str, name: &str) -> (r: String)
    ensures
        r@ == or_default(opt_view(v), spec_join(base@, name@)),
{
    match v {
        Some(s) => s,
        None => join(base, name),
    }
}

/// `base` joined with two components.
fn join_two(base: &str, a: &str, b: &str) -> (r: String)
    ensures
        r@ == join2(base@, a@, b@),
{
    let x = join(base, a);
    join(x.as_str(), b)
}

/// `XDG_CACHE_HOME` when absolute, else `fallback`.
fn xdg_cache(env: &EnvSnapshot, fallback: String) -> (r: String)
    ensures
        r@ == xdg_cache_or(*env, fallback@),
{
    match var_path(&env.xdg_cache_home) {
        Some(x) => {
            if x.unicode_len() > 0 && x.as_str().get_char(0) == '/' {
                x
            } else {
                fallback
            }
        },
        None => fallback,
    }
}

impl EnvSnapshot {
    /// The home directory this snapshot resolves to.
    pub fn home(&self) -> (r: String)
        ensures
            r@ == resolved_home(*self),
    {
        let h = first_of(
            first_of(first_of(copy_opt(&self.platform_home), var_path(&self.user_profile)), var_path(&self.home_var)),
            copy_opt(&self.current_dir),
        );
        proof {
            reveal_strlit(".");
        }
        match h {
            Some(s) => s,
            None => ".".to_owned(),
        }
    }

    /// The local data directory this snapshot resolves to.
    pub fn local_data(&self) -> (r: String)
        ensures
            r@ == resolved_local(*self),
    {
        match first_of(var_path(&self.local_app_data), copy_opt(&self.platform_local_data)) {
            Some(s) => s,
            None => {
                let home = self.home();
                join_two(home.as_str(), "AppData", "Local")
            },
        }
    }

    /// The default Android SDK location, whose existence the snapshot
    /// records in `default_android_sdk_is_dir`.
    pub fn default_android_sdk(&self) -> (r: String)
        ensures
            r@ == join2(resolved_local(*self), "Android"@, "Sdk"@),
    {
        let local = self.local_data();
        join_two(local.as_str(), "Android", "Sdk")
    }
}

/// A literal name is a single component.
proof fn lemma_name_ok(name: Seq<char>)
    requires
        name.len() > 0,
        name.len() == 1 ==> name[0] != '.',
        forall|i: int| 0 <= i < name.len() ==> name[i] != '/' && name[i] != '\\',
    ensures
        is_single_name(name),
{
    if name == seq!['.'] {
        assert(name[0] == '.');
    }
}

/// `base` joined with two names lies inside `base`.
proof fn lemma_join2_within(base: Seq<char>, a: Seq<char>, b: Seq<char>)
    requires
        base.len() >= 3,
        is_single_name(a),
        is_single_name(b),
    ensures
        path_within(join2(base, a, b), base),
        join2(base, a, b).len() >= 3,
{
    lemma_join_within(base, a);
    lemma_join_within(spec_join(base, a), b);
    lemma_within_transitive(join2(base, a, b), spec_join(base, a), base);
}

/// Every location of a test context lies inside its root, when the root
/// has at least three characters.
proof fn lemma_test_locations_inside(root: Seq<char>)
    requires
        root.len() >= 3,
    ensures
        path_within(sandbox_local(root), root),
        path_within(spec_join(root, ".cargo"@), root),
        path_within(spec_join(root, ".rustup"@), root),
        path_within(join2(sandbox_local(root), "Pub"@, "Cache"@), root),
        path_within(join2(sandbox_local(root), "Android"@, "Sdk"@), root),
        path_within(spec_join(sandbox_local(root), "npm-cache"@), root),
        path_within(join2(sandbox_local(root), "pnpm"@, "store"@), root),
        path_within(join2(sandbox_local(root), "Yarn"@, "Cache"@), root),
        path_within(join2(sandbox_local(root), "pip"@, "Cache"@), root),
        path_within(join2(sandbox_local(root), "uv"@, "cache"@), root),
        path_within(spec_join(root, ".gradle"@), root),
        path_within(spec_join(root, "Temp"@), root),
        path_within(spec_join(root, "Windows"@), root),
        path_within(spec_join(sandbox_local(root), "go-build"@), root),
        path_within(join2(spec_join(root, "go"@), "pkg"@, "mod"@), root),
        path_within(join2(sandbox_local(root), "Docker"@, "docker_data.vhdx"@), root),
        path_within(spec_join(root, "projects"@), root),
{
    reveal_strlit(".cargo");
    reveal_strlit(".rustup");
    reveal_strlit("AppData");
    reveal_strlit("Local");
    reveal_strlit("Pub");
    reveal_strlit("Cache");
    reveal_strlit("Android");
    reveal_strlit("Sdk");
    reveal_strlit("npm-cache");
    reveal_strlit("pnpm");
    reveal_strlit("store");
    reveal_strlit("Yarn");
    reveal_strlit("pip");
    reveal_strlit("uv");
    reveal_strlit("cache");
    reveal_strlit(".gradle");
    reveal_strlit("Temp");
    reveal_strlit("Windows");
    reveal_strlit("go-build");
    reveal_strlit("go");
    reveal_strlit("pkg");
    reveal_strlit("mod");
    reveal_strlit("Docker");
    reveal_strlit("docker_data.vhdx");
    reveal_strlit("projects");
    lemma_name_ok(".cargo"@);
    lemma_name_ok(".rustup"@);
    lemma_name_ok("AppData"@);
    lemma_name_ok("Local"@);
    lemma_name_ok("Pub"@);
    lemma_name_ok("Cache"@);
    lemma_name_ok("Android"@);
    lemma_name_ok("Sdk"@);
    lemma_name_ok("npm-cache"@);
    lemma_name_ok("pnpm"@);
    lemma_name_ok("store"@);
    lemma_name_ok("Yarn"@);
    lemma_name_ok("pip"@);
    lemma_name_ok("uv"@);
    lemma_name_ok("cache"@);
    lemma_name_ok(".gradle"@);
    lemma_name_ok("Temp"@);
    lemma_name_ok("Windows"@);
    lemma_name_ok("go-build"@);
    lemma_name_ok("go"@);
    lemma_name_ok("pkg"@);
    lemma_name_ok("mod"@);
    lemma_name_ok("Docker"@);
    lemma_name_ok("docker_data.vhdx"@);
    lemma_name_ok("projects"@);
    let l = sandbox_local(root);
    lemma_join2_within(root, "AppData"@, "Local"@);
    lemma_join_within(root, ".cargo"@);
    lemma_join_within(root, ".rustup"@);
    lemma_join_within(root, ".gradle"@);
    lemma_join_within(root, "Temp"@);
    lemma_join_within(root, "Windows"@);
    lemma_join_within(root, "projects"@);
    lemma_join_within(root, "go"@);
    lemma_join2_within(spec_join(root, "go"@), "pkg"@, "mod"@);
    lemma_within_transitive(join2(spec_join(root, "go"@), "pkg"@, "mod"@), spec_join(root, "go"@), root);
    lemma_join_within(l, "npm-cache"@);
    lemma_within_transitive(spec_join(l, "npm-cache"@), l, root);
    lemma_join_within(l, "go-build"@);
    lemma_within_transitive(spec_join(l, "go-build"@), l, root);
    lemma_join2_within(l, "Pub"@, "Cache"@);
    lemma_within_transitive(join2(l, "Pub"@, "Cache"@), l, root);
    lemma_join2_within(l, "Android"@, "Sdk"@);
    lemma_within_transitive(join2(l, "Android"@, "Sdk"@), l, root);
    lemma_join2_within(l, "pnpm"@, "store"@);
    lemma_within_transitive(join2(l, "pnpm"@, "store"@), l, root);
    lemma_join2_within(l, "Yarn"@, "Cache"@);
    lemma_within_transitive(join2(l, "Yarn"@, "Cache"@), l, root);
    lemma_join2_within(l, "pip"@, "Cache"@);
    lemma_within_transitive(join2(l, "pip"@, "Cache"@), l, root);
    lemma_join2_within(l, "uv"@, "cache"@);
    lemma_within_transitive(join2(l, "uv"@, "cache"@), l, root);
    lemma_join2_within(l, "Docker"@, "docker_data.vhdx"@);
    lemma_within_transitive(join2(l, "Docker"@, "docker_data.vhdx"@), l, root);
}

impl Ctx {
    /// The locations of the machine the snapshot describes: each variable
    /// when set, else the platform default.
    pub fn from_snapshot(env: &EnvSnapshot) -> (r: Ctx)
        ensures
            r.home@ == resolved_home(*env),
            r.local_app_data@ == resolved_local(*env),
            r.cargo_home@ == or_default(var_of(env.cargo_home), spec_join(resolved_home(*env), ".cargo"@)),
            r.rustup_home@ == or_default(var_of(env.rustup_home), spec_join(resolved_home(*env), ".rustup"@)),
            r.pub_cache@ == or_default(var_of(env.pub_cache), join2(resolved_local(*env), "Pub"@, "Cache"@)),
            opt_view(r.android_sdk) == resolved_android(*env),
            r.npm_cache@ == resolved_npm(*env),
            r.pnpm_store@ == join2(resolved_local(*env), "pnpm"@, "store"@),
            r.yarn_cache@ == or_default(var_of(env.yarn_cache_folder), join2(resolved_local(*env), "Yarn"@, "Cache"@)),
            r.pip_cache@ == resolved_pip(*env),
            r.uv_cache@ == resolved_uv(*env),
            r.gradle_home@ == or_default(var_of(env.gradle_user_home), spec_join(resolved_home(*env), ".gradle"@)),
            r.temp_dir@ == env.temp_dir@,
            opt_view(r.system_root) == resolved_system_root(*env),
            r.go_build_cache@ == resolved_go_build(*env),
            r.go_mod_cache@ == or_default(
                var_of(env.go_mod_cache),
                join2(or_default(var_of(env.go_path), spec_join(resolved_home(*env), "go"@)), "pkg"@, "mod"@),
            ),
            r.docker_data_files@.len() == 2,
            r.docker_data_files@[0]@ == join2(join2(resolved_local(*env), "Docker"@, "wsl"@), "disk"@, "docker_data.vhdx"@),
            r.docker_data_files@[1]@ == join2(join2(resolved_local(*env), "Docker"@, "wsl"@), "data"@, "ext4.vhdx"@),
            r.project_roots@.len() == 1,
            r.project_roots@[0]@ == resolved_project_root(*env),
            r.docker_enabled,
    {
        let home = env.home();
        let local = env.local_data();
        let h = home.as_str();
        let l = local.as_str();
        let cargo_home = or_join(var_path(&env.cargo_home), h, ".cargo");
        let rustup_home = or_join(var_path(&env.rustup_home), h, ".rustup");
        let pub_cache = match var_path(&env.pub_cache) {
            Some(p) => p,
            None => join_two(l, "Pub", "Cache"),
        };
        let android_sdk = match first_of(var_path(&env.android_sdk_root), var_path(&env.android_home)) {
            Some(p) => Some(p),
            None => if env.default_android_sdk_is_dir {
                Some(join_two(l, "Android", "Sdk"))
            } else {
                None
            },
        };
        let npm_cache = match first_of(var_path(&env.npm_config_cache), var_path(&env.npm_config_cache_upper)) {
            Some(p) => p,
            None => if env.windows {
                join(l, "npm-cache")
            } else {
                join(h, ".npm")
            },
        };
        let pnpm_store = join_two(l, "pnpm", "store");
        let yarn_cache = match var_path(&env.yarn_cache_folder) {
            Some(p) => p,
            None => join_two(l, "Yarn", "Cache"),
        };
        let pip_cache = match var_path(&env.pip_cache_dir) {
            Some(p) => p,
            None => if env.windows {
                join_two(l, "pip", "Cache")
            } else if env.macos {
                let base = xdg_cache(env, join(h, "Library/Caches"));
                join(base.as_str(), "pip")
            } else {
                let base = xdg_cache(env, join(h, ".cache"));
                join(base.as_str(), "pip")
            },
        };
        let uv_cache = match var_path(&env.uv_cache_dir) {
            Some(p) => p,
            None => if env.windows {
                join_two(l, "uv", "cache")
            } else {
                let base = xdg_cache(env, join(h, ".cache"));
                join(base.as_str(), "uv")
            },
        };
        let gradle_home = or_join(var_path(&env.gradle_user_home), h, ".gradle");
        let system_root = match var_path(&env.system_root) {
            Some(p) => Some(p),
            None => if env.windows {
                proof {
                    reveal_strlit("C:\\Windows");
                }
                Some("C:\\Windows".to_owned())
            } else {
                None
            },
        };
        let go_path = or_join(var_path(&env.go_path), h, "go");
        let go_build_cache = match var_path(&env.go_cache) {
            Some(p) => p,
            None => if env.windows {
                join(l, "go-build")
            } else {
                let base = xdg_cache(env, join(h, ".cache"));
                join(base.as_str(), "go-build")
            },
        };
        let go_mod_cache = match var_path(&env.go_mod_cache) {
            Some(p) => p,
            None => join_two(go_path.as_str(), "pkg", "mod"),
        };
        let docker = join_two(l, "Docker", "wsl");
        let mut docker_data_files: Vec<String> = Vec::new();
        docker_data_files.push(join_two(docker.as_str(), "disk", "docker_data.vhdx"));
        docker_data_files.push(join_two(docker.as_str(), "data", "ext4.vhdx"));
        let project_root = match &env.current_dir {
            Some(c) => if env.current_dir_is_dir { c.clone() } else { home.clone() },
            None => home.clone(),
        };
        let mut project_roots: Vec<String> = Vec::new();
        project_roots.push(project_root);
        Ctx {
            home,
            local_app_data: local,
            cargo_home,
            rustup_home,
            pub_cache,
            android_sdk,
            npm_cache,
            pnpm_store,
            yarn_cache,
            pip_cache,
            uv_cache,
            gradle_home,
            temp_dir: env.temp_dir.clone(),
            system_root,
            go_build_cache,
            go_mod_cache,
            docker_data_files,
            project_roots,
            docker_enabled: true,
        }
    }
}

/// The layout of a sandbox rooted at `root`.
pub open spec fn sandbox_local(root: Seq<char>) -> Seq<char> {
    join2(root, "AppData"@, "Local"@)
}

impl Ctx {
    /// Every location under `root`, for hermetic tests and for trying the
    /// detectors on a sandbox before the real machine.
    pub fn for_tests(root: &str) -> (r: Ctx)
        ensures
            r.home@ == root@,
            r.local_app_data@ == sandbox_local(root@),
            r.cargo_home@ == spec_join(root@, ".cargo"@),
            r.rustup_home@ == spec_join(root@, ".rustup"@),
            r.pub_cache@ == join2(sandbox_local(root@), "Pub"@, "Cache"@),
            opt_view(r.android_sdk) == Some(join2(sandbox_local(root@), "Android"@, "Sdk"@)),
            r.npm_cache@ == spec_join(sandbox_local(root@), "npm-cache"@),
            r.pnpm_store@ == join2(sandbox_local(root@), "pnpm"@, "store"@),
            r.yarn_cache@ == join2(sandbox_local(root@), "Yarn"@, "Cache"@),
            r.pip_cache@ == join2(sandbox_local(root@), "pip"@, "Cache"@),
            r.uv_cache@ == join2(sandbox_local(root@), "uv"@, "cache"@),
            r.gradle_home@ == spec_join(root@, ".gradle"@),
            r.temp_dir@ == spec_join(root@, "Temp"@),
            opt_view(r.system_root) == Some(spec_join(root@, "Windows"@)),
            r.go_build_cache@ == spec_join(sandbox_local(root@), "go-build"@),
            r.go_mod_cache@ == join2(spec_join(root@, "go"@), "pkg"@, "mod"@),
            r.docker_data_files@.len() == 1,
            r.docker_data_files@[0]@ == join2(sandbox_local(root@), "Docker"@, "docker_data.vhdx"@),
            r.project_roots@.len() == 1,
            r.project_roots@[0]@ == spec_join(root@, "projects"@),
            r.docker_enabled,
            root@.len() >= 3 ==> {
                &&& path_within(r.home@, root@)
                &&& path_within(r.local_app_data@, root@)
                &&& path_within(r.cargo_home@, root@)
                &&& path_within(r.rustup_home@, root@)
                &&& path_within(r.pub_cache@, root@)
                &&& path_within(r.android_sdk->Some_0@, root@)
                &&& path_within(r.npm_cache@, root@)
                &&& path_within(r.pnpm_store@, root@)
                &&& path_within(r.yarn_cache@, root@)
                &&& path_within(r.pip_cache@, root@)
                &&& path_within(r.uv_cache@, root@)
                &&& path_within(r.gradle_home@, root@)
                &&& path_within(r.temp_dir@, root@)
                &&& path_within(r.system_root->Some_0@, root@)
                &&& path_within(r.go_build_cache@, root@)
                &&& path_within(r.go_mod_cache@, root@)
                &&& path_within(r.docker_data_files@[0]@, root@)
                &&& path_within(r.project_roots@[0]@, root@)
            },
    {
        proof {
            if root@.len() >= 3 {
                lemma_test_locations_inside(root@);
            }
        }
        let local = join_two(root, "AppData", "Local");
        let l = local.as_str();
        let mut docker_data_files: Vec<String> = Vec::new();
        docker_data_files.push(join_two(l, "Docker", "docker_data.vhdx"));
        let mut project_roots: Vec<String> = Vec::new();
        project_roots.push(join(root, "projects"));
        let go = join(root, "go");
        Ctx {
            home: root.to_owned(),
            cargo_home: join(root, ".cargo"),
            rustup_home: join(root, ".rustup"),
            pub_cache: join_two(l, "Pub", "Cache"),
            android_sdk: Some(join_two(l, "Android", "Sdk")),
            npm_cache: join(l, "npm-cache"),
            pnpm_store: join_two(l, "pnpm", "store"),
            yarn_cache: join_two(l, "Yarn", "Cache"),
            pip_cache: join_two(l, "pip", "Cache"),
            uv_cache: join_two(l, "uv", "cache"),
            gradle_home: join(root, ".gradle"),
            temp_dir: join(root, "Temp"),
            system_root: Some(join(root, "Windows")),
            go_build_cache: join(l, "go-build"),
            go_mod_cache: join_two(go.as_str(), "pkg", "mod"),
            docker_data_files,
            project_roots,
            docker_enabled: true,
            local_app_data: local,
        }
    }

    /// The managed cache and runtime trees, which never hold user
    /// projects, before canonicalization: project walks prune them.
    pub fn managed_candidates(&self) -> (r: Vec<String>)
        ensures
            r@.len() == 16 + if self.android_sdk is Some { 1int } else { 0int },
            r@[0]@ == self.local_app_data@,
            r@[1]@ == spec_join(self.home@, "AppData"@),
            r@[2]@ == spec_join(self.home@, ".cache"@),
            r@[3]@ == spec_join(self.home@, ".codex"@),
            r@[4]@ == self.cargo_home@,
            r@[5]@ == self.rustup_home@,
            r@[6]@ == self.pub_cache@,
            r@[7]@ == self.npm_cache@,
            r@[8]@ == self.pnpm_store@,
            r@[9]@ == self.yarn_cache@,
            r@[10]@ == self.pip_cache@,
            r@[11]@ == self.uv_cache@,
            r@[12]@ == self.gradle_home@,
            r@[13]@ == self.temp_dir@,
            r@[14]@ == self.go_build_cache@,
            r@[15]@ == self.go_mod_cache@,
            self.android_sdk is Some ==> r@[16]@ == self.android_sdk->0@,
    {
        let h = self.home.as_str();
        let mut v: Vec<String> = Vec::new();
        v.push(self.local_app_data.clone());
        v.push(join(h, "AppData"));
        v.push(join(h, ".cache"));
        v.push(join(h, ".codex"));
        v.push(self.cargo_home.clone());
        v.push(self.rustup_home.clone());
        v.push(self.pub_cache.clone());
        v.push(self.npm_cache.clone());
        v.push(self.pnpm_store.clone());
        v.push(self.yarn_cache.clone());
        v.push(self.pip_cache.clone());
        v.push(self.uv_cache.clone());
        v.push(self.gradle_home.clone());
        v.push(self.temp_dir.clone());
        v.push(self.go_build_cache.clone());
        v.push(self.go_mod_cache.clone());
        match &self.android_sdk {
            Some(sdk) => v.push(sdk.clone()),
            None => {},
        }
        v
    }
}

} // verus!
