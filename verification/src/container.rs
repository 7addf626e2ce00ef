//! The Docker Compose services of the deployment: the manager's paths, the
//! reading of `docker compose ps` output and of restart policies, and the
//! decisions taken while services start.
use vstd::prelude::*;
use vstd::string::StringExecFns;
use crate::error::DuckError;
use crate::split::{views, split_on, split_on_char, lemma_views_push, lemma_views_empty, join, join_chars};
use crate::text::{
    trim, trim_chars, to_chars, from_chars, extend_str, str_eq, has_sub, contains, lowercase,
    to_lowercase,
};
use crate::sql_diff::types::{opt_view, str_views, lemma_str_views_push};
use crate::json::{JsonShape, json_shape, json_field, read_json, string_field};

verus! {

broadcast use vstd::string::group_string_axioms;

/// The state of a service.
#[derive(Debug, Clone, Copy, PartialEq, Eq, Structural)]
pub enum ServiceStatus {
    Running,
    Stopped,
    Unknown,
}

/// A service as `docker compose ps` reports it.
#[derive(Debug, Clone)]
pub struct ServiceInfo {
    pub name: String,
    pub status: ServiceStatus,
    pub image: String,
    pub ports: Vec<String>,
}

pub struct ServiceView {
    pub name: Seq<char>,
    pub status: ServiceStatus,
    pub image: Seq<char>,
    pub ports: Seq<Seq<char>>,
}

impl View for ServiceInfo {
    type V = ServiceView;

    open spec fn view(&self) -> ServiceView {
        ServiceView {
            name: self.name@,
            status: self.status,
            image: self.image@,
            ports: str_views(self.ports@),
        }
    }
}

pub open spec fn service_views(v: Seq<ServiceInfo>) -> Seq<ServiceView> {
    v.map_values(|s: ServiceInfo| s@)
}

/// A service's settings read from the Compose file.
#[derive(Debug, Clone)]
pub struct ServiceConfig {
    pub restart: Option<String>,
}

/// The manager of the services of one Compose file.
#[derive(Debug, Clone)]
pub struct DockerManager {
    compose_file: String,
}

/// What `Path::parent` gives for a path: the path without its last
/// component, or `None` for a root, a prefix or an empty path.
pub uninterp spec fn path_parent(p: Seq<char>) -> Option<Seq<char>>;

/// `Path::parent` of `p`; the contract names its result.
#[verifier::external_body]
fn parent_of(p: &str) -> (r: Option<String>)
    ensures
        opt_view(r) == path_parent(p@),
{
    std::path::Path::new(p).parent().map(|q| q.to_string_lossy().into_owned())
}

/// `Path::exists` of `p`. Whether a file exists depends on the disk at the
/// time of the call, so nothing is stated of the result.
#[verifier::external_body]
fn path_exists(p: &str) -> (r: bool) {
    std::path::Path::new(p).exists()
}

impl DockerManager {
    pub closed spec fn spec_compose_file(&self) -> Seq<char> {
        self.compose_file@
    }

    /// A manager of the services of `compose_file`; the file need not exist
    /// yet.
    pub fn new(compose_file: &str) -> (r: Result<DockerManager, DuckError>)
        ensures
            r matches Ok(m) && m.spec_compose_file() == compose_file@,
    {
        Ok(DockerManager { compose_file: String::from_str(compose_file) })
    }

    /// Whether the Compose file exists now.
    pub fn compose_file_exists(&self) -> bool {
        path_exists(self.compose_file.as_str())
    }

    /// The Compose file's path.
    pub fn get_compose_file(&self) -> (r: &str)
        ensures
            r@ == self.spec_compose_file(),
    {
        self.compose_file.as_str()
    }

    /// The directory of the Compose file, where commands run.
    pub fn get_working_directory(&self) -> (r: Option<String>)
        ensures
            opt_view(r) == path_parent(self.spec_compose_file()),
    {
        parent_of(self.compose_file.as_str())
    }
}

// ---------------------------------------------------------------------------
// `docker compose ps --format json` output: one JSON object per line.

/// What reading field `key` of `line` as JSON gives: `None` where the line
/// is not JSON, `Some(None)` where the field is absent or not a string.
pub open spec fn json_field_text(line: Seq<char>, key: Seq<char>) -> Option<Option<Seq<char>>> {
    json_field(json_shape(line), key)
}

pub open spec fn field_or(line: Seq<char>, key: Seq<char>, d: Seq<char>) -> Seq<char> {
    match json_field_text(line, key) {
        Some(Some(x)) => x,
        _ => d,
    }
}

/// The state that a `State` text stands for.
pub open spec fn status_of(state: Seq<char>) -> ServiceStatus {
    if state == "running"@ {
        ServiceStatus::Running
    } else if state == "exited"@ || state == "stopped"@ {
        ServiceStatus::Stopped
    } else {
        ServiceStatus::Unknown
    }
}

/// The non-empty pieces, trimmed, of a list of ports separated by commas.
pub open spec fn nonempty_trimmed(pieces: Seq<Seq<char>>) -> Seq<Seq<char>>
    decreases pieces.len(),
{
    if pieces.len() == 0 {
        Seq::empty()
    } else if trim(pieces.last()).len() > 0 {
        nonempty_trimmed(pieces.drop_last()).push(trim(pieces.last()))
    } else {
        nonempty_trimmed(pieces.drop_last())
    }
}

pub open spec fn port_list(s: Seq<char>) -> Seq<Seq<char>> {
    nonempty_trimmed(split_on(s, ','))
}

/// The service that a line describes; absent fields read as `unknown`, and
/// as no ports.
pub open spec fn service_of(line: Seq<char>) -> ServiceView {
    ServiceView {
        name: field_or(line, "Name"@, "unknown"@),
        status: status_of(field_or(line, "State"@, "unknown"@)),
        image: field_or(line, "Image"@, "unknown"@),
        ports: port_list(field_or(line, "Ports"@, ""@)),
    }
}

/// A line without the carriage return that ends it, if any, as
/// `str::lines` gives it.
pub open spec fn strip_cr(line: Seq<char>) -> Seq<char> {
    if line.len() > 0 && line.last() == '\r' {
        line.drop_last()
    } else {
        line
    }
}

/// The services of the lines that are not blank and are JSON, in order.
pub open spec fn services_of(lines: Seq<Seq<char>>) -> Seq<ServiceView>
    decreases lines.len(),
{
    if lines.len() == 0 {
        Seq::empty()
    } else {
        let prev = services_of(lines.drop_last());
        let line = strip_cr(lines.last());
        if trim(line).len() == 0 || json_field_text(line, "Name"@) is None {
            prev
        } else {
            prev.push(service_of(line))
        }
    }
}

pub open spec fn parse_services(output: Seq<char>) -> Seq<ServiceView> {
    if trim(output).len() == 0 {
        Seq::empty()
    } else {
        services_of(split_on(output, '\n'))
    }
}

fn field_or_exec(line: &str, shape: &JsonShape, key: &str, d: &str) -> (r: String)
    requires
        shape@ == json_shape(line@),
    ensures
        r@ == field_or(line@, key@, d@),
{
    match string_field(shape, key) {
        Some(x) => x,
        None => String::from_str(d),
    }
}

fn status_of_exec(state: &str) -> (r: ServiceStatus)
    ensures
        r == status_of(state@),
{
    if str_eq(state, "running") {
        ServiceStatus::Running
    } else if str_eq(state, "exited") || str_eq(state, "stopped") {
        ServiceStatus::Stopped
    } else {
        ServiceStatus::Unknown
    }
}

fn port_list_exec(s: &str) -> (r: Vec<String>)
    ensures
        str_views(r@) == port_list(s@),
{
    let pieces = split_on_char(&to_chars(s), ',');
    let ghost pv = views(pieces@);
    let mut r: Vec<String> = Vec::new();
    let mut i: usize = 0;
    while i < pieces.len()
        invariant
            i <= pieces@.len(),
            pv == views(pieces@),
            str_views(r@) == nonempty_trimmed(pv.take(i as int)),
        decreases pieces@.len() - i,
    {
        proof {
            assert(pv.take(i + 1).drop_last() =~= pv.take(i as int));
            assert(pv.take(i + 1).last() == pieces@[i as int]@);
        }
        let t = trim_chars(&pieces[i]);
        if t.len() > 0 {
            let x = from_chars(&t);
            proof {
                lemma_str_views_push(r@, x);
            }
            r.push(x);
        }
        i = i + 1;
    }
    assert(pv.take(pv.len() as int) =~= pv);
    r
}

fn service_of_exec(line: &str, shape: &JsonShape) -> (r: ServiceInfo)
    requires
        shape@ == json_shape(line@),
    ensures
        r@ == service_of(line@),
{
    let name = field_or_exec(line, shape, "Name", "unknown");
    let state = field_or_exec(line, shape, "State", "unknown");
    let image = field_or_exec(line, shape, "Image", "unknown");
    let ports = field_or_exec(line, shape, "Ports", "");
    ServiceInfo {
        name,
        status: status_of_exec(state.as_str()),
        image,
        ports: port_list_exec(ports.as_str()),
    }
}

pub fn strip_cr_exec(line: &Vec<char>) -> (r: Vec<char>)
    ensures
        r@ == strip_cr(line@),
{
    let mut r: Vec<char> = Vec::new();
    let n = line.len();
    let keep = if n > 0 && line[n - 1] == '\r' {
        n - 1
    } else {
        n
    };
    let mut i: usize = 0;
    while i < keep
        invariant
            keep <= line@.len(),
            i <= keep,
            r@ == line@.take(i as int),
        decreases keep - i,
    {
        r.push(line[i]);
        i = i + 1;
        assert(r@ =~= line@.take(i as int));
    }
    assert(r@ =~= strip_cr(line@));
    r
}

proof fn lemma_service_views_push(v: Seq<ServiceInfo>, x: ServiceInfo)
    ensures
        service_views(v.push(x)) == service_views(v).push(x@),
{
    assert(service_views(v.push(x)) =~= service_views(v).push(x@));
}

impl DockerManager {
    /// The services that `docker compose ps --format json` reported in
    /// `json_output`, one per non-blank line that is JSON, in order.
    pub fn parse_service_info(&self, json_output: &str) -> (r: Result<Vec<ServiceInfo>, DuckError>)
        ensures
            r matches Ok(v) && service_views(v@) == parse_services(json_output@),
    {
        let out = to_chars(json_output);
        let mut services: Vec<ServiceInfo> = Vec::new();
        if trim_chars(&out).len() == 0 {
            assert(service_views(services@) =~= Seq::<ServiceView>::empty());
            return Ok(services);
        }
        let lines = split_on_char(&out, '\n');
        let ghost lv = views(lines@);
        let mut i: usize = 0;
        while i < lines.len()
            invariant
                i <= lines@.len(),
                lv == views(lines@),
                service_views(services@) == services_of(lv.take(i as int)),
            decreases lines@.len() - i,
        {
            proof {
                assert(lv.take(i + 1).drop_last() =~= lv.take(i as int));
                assert(lv.take(i + 1).last() == lines@[i as int]@);
            }
            let lc = strip_cr_exec(&lines[i]);
            if trim_chars(&lc).len() > 0 {
                let line = from_chars(&lc);
                let shape = read_json(line.as_str());
                match shape {
                    JsonShape::Invalid => {},
                    _ => {
                        let s = service_of_exec(line.as_str(), &shape);
                        proof {
                            lemma_service_views_push(services@, s);
                        }
                        services.push(s);
                    },
                }
            }
            i = i + 1;
        }
        assert(lv.take(lv.len() as int) =~= lv);
        Ok(services)
    }
}

// ---------------------------------------------------------------------------
// Restart policies and one-shot services.

/// A YAML document as the Compose logic reads it: a text scalar, a mapping
/// (each key given where it is a text), or anything else.
#[derive(Debug)]
pub enum YamlNode {
    Text(String),
    Mapping(Vec<(Option<String>, YamlNode)>),
    Other,
}

/// The value under the first entry of `entries`, from `i` on, whose key is
/// the text `key`.
pub open spec fn entry_value(entries: Seq<(Option<String>, YamlNode)>, key: Seq<char>, i: int) -> Option<
    YamlNode,
>
    decreases entries.len() - i,
{
    if i < 0 || i >= entries.len() {
        None
    } else if entries[i].0 matches Some(k) && k@ == key {
        Some(entries[i].1)
    } else {
        entry_value(entries, key, i + 1)
    }
}

/// The value of a mapping under the text key `key`; nothing for a node that
/// is no mapping.
pub open spec fn yaml_get(node: YamlNode, key: Seq<char>) -> Option<YamlNode> {
    match node {
        YamlNode::Mapping(entries) => entry_value(entries@, key, 0),
        _ => None,
    }
}

/// A node's text, where it is one.
pub open spec fn yaml_text(node: YamlNode) -> Option<Seq<char>> {
    match node {
        YamlNode::Text(t) => Some(t@),
        _ => None,
    }
}

fn get_entry<'a>(node: &'a YamlNode, key: &str) -> (r: Option<&'a YamlNode>)
    ensures
        match yaml_get(*node, key@) {
            Some(v) => r matches Some(x) && *x == v,
            None => r is None,
        },
{
    match node {
        YamlNode::Mapping(entries) => {
            let mut i: usize = 0;
            assert(yaml_get(*node, key@) == entry_value(entries@, key@, 0));
            while i < entries.len()
                invariant
                    i <= entries@.len(),
                    yaml_get(*node, key@) == entry_value(entries@, key@, 0),
                    entry_value(entries@, key@, i as int) == entry_value(entries@, key@, 0),
                decreases entries@.len() - i,
            {
                let found = match &entries[i].0 {
                    Some(k) => str_eq(k.as_str(), key),
                    None => false,
                };
                if found {
                    let e = &entries[i];
                    assert(*e == entries@[i as int]);
                    return Some(&e.1);
                }
                i = i + 1;
            }
            None
        },
        _ => None,
    }
}

/// The settings of `service_name` read from the Compose document `doc` (the
/// YAML parser's message where the text was no YAML), or the reason they
/// cannot be read: the document must hold `services`, that must hold the
/// service, and its `restart` is kept where it is a text.
pub open spec fn service_config_of(doc: Result<YamlNode, Seq<char>>, service_name: Seq<char>) -> Result<
    Option<Seq<char>>,
    Seq<char>,
> {
    match doc {
        Err(m) => Err("解析compose文件失败: "@ + m),
        Ok(d) => match yaml_get(d, "services"@) {
            None => Err("compose文件中没有services部分"@),
            Some(services) => match yaml_get(services, service_name) {
                None => Err("找不到服务: "@ + service_name),
                Some(svc) => Ok(
                    match yaml_get(svc, "restart"@) {
                        Some(v) => yaml_text(v),
                        None => None,
                    },
                ),
            },
        },
    }
}

pub open spec fn parsed_view(doc: Result<YamlNode, String>) -> Result<YamlNode, Seq<char>> {
    match doc {
        Ok(d) => Ok(d),
        Err(m) => Err(m@),
    }
}

/// Restart policies that mark a service as run once, and those that mark
/// it as kept running.
pub open spec fn oneshot_policy(p: Seq<char>) -> Option<bool> {
    if p == "no"@ || p == "false"@ {
        Some(true)
    } else if p == "always"@ || p == "unless-stopped"@ || p == "on-failure"@ {
        Some(false)
    } else {
        None
    }
}

/// The name fragments of services that run once.
pub open spec fn oneshot_patterns() -> Seq<Seq<char>> {
    seq![
        "init"@,
        "setup"@,
        "migration"@,
        "migrate"@,
        "seed"@,
        "bootstrap"@,
        "minio-init"@,
        "db-init"@,
        "setup-"@,
        "-init"@,
        "-setup"@,
    ]
}

pub open spec fn oneshot_by_name(name: Seq<char>) -> bool {
    exists|i: int| 0 <= i < oneshot_patterns().len() && has_sub(lowercase(name), #[trigger] oneshot_patterns()[i])
}

/// Whether a service runs once and exits: by its restart policy where that
/// decides, else by its name.
pub open spec fn is_oneshot(restart: Option<Seq<char>>, name: Seq<char>) -> bool {
    match restart {
        Some(p) => match oneshot_policy(p) {
            Some(b) => b,
            None => oneshot_by_name(name),
        },
        None => oneshot_by_name(name),
    }
}

pub open spec fn config_restart(c: Result<ServiceConfig, DuckError>) -> Option<Seq<char>> {
    match c {
        Ok(sc) => opt_view(sc.restart),
        Err(_) => None,
    }
}

fn name_matches_pattern(name: &Vec<char>) -> (r: bool)
    ensures
        r == (exists|i: int| 0 <= i < oneshot_patterns().len() && has_sub(name@, #[trigger] oneshot_patterns()[i])),
{
    let mut pats: Vec<&'static str> = Vec::new();
    pats.push("init");
    pats.push("setup");
    pats.push("migration");
    pats.push("migrate");
    pats.push("seed");
    pats.push("bootstrap");
    pats.push("minio-init");
    pats.push("db-init");
    pats.push("setup-");
    pats.push("-init");
    pats.push("-setup");
    let ghost ps = oneshot_patterns();
    assert(pats@.map_values(|p: &'static str| p@) =~= ps);
    let mut i: usize = 0;
    while i < pats.len()
        invariant
            i <= pats@.len(),
            pats@.len() == ps.len(),
            ps == oneshot_patterns(),
            forall|k: int| 0 <= k < pats@.len() ==> (#[trigger] pats@[k])@ == ps[k],
            forall|k: int| 0 <= k < i ==> !has_sub(name@, #[trigger] ps[k]),
        decreases pats@.len() - i,
    {
        if contains(name, &to_chars(pats[i])) {
            assert(has_sub(name@, ps[i as int]));
            return true;
        }
        i = i + 1;
    }
    false
}

impl DockerManager {
    /// The settings of `service_name` in the Compose document `doc`, as the
    /// YAML parser read it (or its message where the text was no YAML).
    pub fn service_config_from_yaml(&self, doc: &Result<YamlNode, String>, service_name: &str) -> (r:
        Result<ServiceConfig, DuckError>)
        ensures
            match service_config_of(parsed_view(*doc), service_name@) {
                Ok(p) => r matches Ok(c) && opt_view(c.restart) == p,
                Err(m) => r matches Err(DuckError::Docker(x)) && x@ == m,
            },
    {
        let d = match doc {
            Err(m) => {
                let mut v = to_chars("解析compose文件失败: ");
                extend_str(&mut v, m.as_str());
                return Err(DuckError::Docker(from_chars(&v)));
            },
            Ok(d) => d,
        };
        let services = match get_entry(d, "services") {
            None => {
                return Err(DuckError::Docker(String::from_str("compose文件中没有services部分")));
            },
            Some(x) => x,
        };
        let svc = match get_entry(services, service_name) {
            None => {
                let mut v = to_chars("找不到服务: ");
                extend_str(&mut v, service_name);
                return Err(DuckError::Docker(from_chars(&v)));
            },
            Some(x) => x,
        };
        let restart = match get_entry(svc, "restart") {
            Some(YamlNode::Text(t)) => Some(t.clone()),
            _ => None,
        };
        Ok(ServiceConfig { restart })
    }

    /// Whether `service_name` runs once and exits, given what reading its
    /// settings gave.
    pub fn is_oneshot_service(&self, service_config: &Result<ServiceConfig, DuckError>, service_name: &str) -> (r: bool)
        ensures
            r == is_oneshot(config_restart(*service_config), service_name@),
    {
        match service_config {
            Ok(sc) => match &sc.restart {
                Some(p) => {
                    let ps = p.as_str();
                    if str_eq(ps, "no") || str_eq(ps, "false") {
                        return true;
                    }
                    if str_eq(ps, "always") || str_eq(ps, "unless-stopped") || str_eq(ps, "on-failure") {
                        return false;
                    }
                },
                None => {},
            },
            Err(_) => {},
        }
        let lower = to_lowercase(service_name);
        name_matches_pattern(&to_chars(lower.as_str()))
    }
}

// ---------------------------------------------------------------------------
// Service health and the wait for services to start.

/// The names of the services that are not running, in order.
pub open spec fn not_running(sv: Seq<ServiceView>) -> Seq<Seq<char>>
    decreases sv.len(),
{
    if sv.len() == 0 {
        Seq::empty()
    } else if sv.last().status != ServiceStatus::Running {
        not_running(sv.drop_last()).push(sv.last().name)
    } else {
        not_running(sv.drop_last())
    }
}

/// The health of the services: an error for no service at all, or the services not running.
pub open spec fn health_check(sv: Seq<ServiceView>) -> Result<(), Seq<char>> {
    if sv.len() == 0 {
        Err("没有找到任何服务"@)
    } else if not_running(sv).len() > 0 {
        Err("部分服务未在运行: "@ + join(not_running(sv), ", "@))
    } else {
        Ok(())
    }
}

/// The state of the first service named `name`, if any.
pub open spec fn find_service(sv: Seq<ServiceView>, name: Seq<char>, i: int) -> Option<ServiceStatus>
    decreases sv.len() - i,
{
    if i < 0 || i >= sv.len() {
        None
    } else if sv[i].name == name {
        Some(sv[i].status)
    } else {
        find_service(sv, name, i + 1)
    }
}

fn push_name(v: &mut Vec<Vec<char>>, name: &String)
    ensures
        views(final(v)@) == views(old(v)@).push(name@),
{
    let c = to_chars(name.as_str());
    proof {
        lemma_views_push(v@, c);
    }
    v.push(c);
}

/// Whether the service named `service_name` among `services` is running;
/// false when none has that name.
pub fn is_service_running(services: &Vec<ServiceInfo>, service_name: &str) -> (r: bool)
    ensures
        r == (find_service(service_views(services@), service_name@, 0) == Some(ServiceStatus::Running)),
{
    let ghost sv = service_views(services@);
    let mut i: usize = 0;
    while i < services.len()
        invariant
            i <= services@.len(),
            sv == service_views(services@),
            find_service(sv, service_name@, i as int) == find_service(sv, service_name@, 0),
        decreases services@.len() - i,
    {
        if str_eq(services[i].name.as_str(), service_name) {
            return services[i].status == ServiceStatus::Running;
        }
        i = i + 1;
    }
    false
}

/// Whether all `services` are running: an error when there are none, or
/// naming those that are not.
pub fn check_services_health(services: &Vec<ServiceInfo>) -> (r: Result<(), DuckError>)
    ensures
        match health_check(service_views(services@)) {
            Ok(()) => r is Ok,
            Err(m) => r matches Err(DuckError::Docker(x)) && x@ == m,
        },
{
    let ghost sv = service_views(services@);
    if services.len() == 0 {
        return Err(DuckError::Docker(String::from_str("没有找到任何服务")));
    }
    let mut bad: Vec<Vec<char>> = Vec::new();
    proof {
        lemma_views_empty();
    }
    let mut i: usize = 0;
    while i < services.len()
        invariant
            i <= services@.len(),
            sv == service_views(services@),
            views(bad@) == not_running(sv.take(i as int)),
        decreases services@.len() - i,
    {
        proof {
            assert(sv.take(i + 1).drop_last() =~= sv.take(i as int));
            assert(sv.take(i + 1).last() == services@[i as int]@);
        }
        if services[i].status != ServiceStatus::Running {
            push_name(&mut bad, &services[i].name);
        }
        i = i + 1;
    }
    assert(sv.take(sv.len() as int) =~= sv);
    if bad.len() > 0 {
        let mut v = to_chars("部分服务未在运行: ");
        let joined = join_chars(&bad, &to_chars(", "));
        crate::text::extend_chars(&mut v, &joined);
        return Err(DuckError::Docker(from_chars(&v)));
    }
    Ok(())
}

/// The outcome of one check while waiting for services to start.
#[derive(Debug, Clone, Copy, PartialEq, Eq, Structural)]
pub enum StartCheck {
    /// All services run (or ran once and exited, or there are none).
    Started,
    /// Check again after the interval.
    Wait,
}

/// The names of stopped services that are not one-shot, and of services in
/// an unknown state, in order; `oneshot[i]` tells whether service `i` runs
/// once.
pub open spec fn failed_names(sv: Seq<ServiceView>, oneshot: Seq<bool>) -> Seq<Seq<char>>
    decreases sv.len(),
{
    if sv.len() == 0 {
        Seq::empty()
    } else if sv.last().status == ServiceStatus::Stopped && !oneshot[sv.len() - 1] {
        failed_names(sv.drop_last(), oneshot).push(sv.last().name)
    } else {
        failed_names(sv.drop_last(), oneshot)
    }
}

pub open spec fn pending_names(sv: Seq<ServiceView>) -> Seq<Seq<char>>
    decreases sv.len(),
{
    if sv.len() == 0 {
        Seq::empty()
    } else if sv.last().status == ServiceStatus::Unknown {
        pending_names(sv.drop_last()).push(sv.last().name)
    } else {
        pending_names(sv.drop_last())
    }
}

/// The message of a wait that ran out of attempts.
pub open spec fn start_failure_text(failed: Seq<Seq<char>>, pending: Seq<Seq<char>>) -> Seq<char> {
    let a = if failed.len() > 0 {
        "启动失败的服务: "@ + join(failed, ", "@)
    } else {
        Seq::empty()
    };
    let b = if pending.len() > 0 {
        (if a.len() > 0 {
            a + "; "@
        } else {
            a
        }) + "启动超时的服务: "@ + join(pending, ", "@)
    } else {
        a
    };
    "服务启动验证失败: "@ + b
}

/// One check of the wait, at attempt `attempt` of `max_attempts`.
pub open spec fn start_check(sv: Seq<ServiceView>, oneshot: Seq<bool>, attempt: u64, max_attempts: u64) -> Result<
    StartCheck,
    Seq<char>,
> {
    let failed = failed_names(sv, oneshot);
    let pending = pending_names(sv);
    if sv.len() == 0 || (failed.len() == 0 && pending.len() == 0) {
        Ok(StartCheck::Started)
    } else if attempt == max_attempts {
        Err(start_failure_text(failed, pending))
    } else {
        Ok(StartCheck::Wait)
    }
}

/// One check while waiting for services to start, from the services found
/// and whether each runs once (`oneshot[i]` for service `i`, consulted only
/// for stopped ones).
pub fn check_services_started(
    services: &Vec<ServiceInfo>,
    oneshot: &Vec<bool>,
    attempt: u64,
    max_attempts: u64,
) -> (r: Result<StartCheck, DuckError>)
    requires
        oneshot@.len() == services@.len(),
    ensures
        match start_check(service_views(services@), oneshot@, attempt, max_attempts) {
            Ok(c) => r == Ok::<StartCheck, DuckError>(c),
            Err(m) => r matches Err(DuckError::Docker(x)) && x@ == m,
        },
{
    let ghost sv = service_views(services@);
    if services.len() == 0 {
        return Ok(StartCheck::Started);
    }
    let mut failed: Vec<Vec<char>> = Vec::new();
    let mut pending: Vec<Vec<char>> = Vec::new();
    proof {
        lemma_views_empty();
    }
    let mut i: usize = 0;
    while i < services.len()
        invariant
            i <= services@.len(),
            oneshot@.len() == services@.len(),
            sv == service_views(services@),
            views(failed@) == failed_names(sv.take(i as int), oneshot@),
            views(pending@) == pending_names(sv.take(i as int)),
        decreases services@.len() - i,
    {
        proof {
            assert(sv.take(i + 1).drop_last() =~= sv.take(i as int));
            assert(sv.take(i + 1).last() == services@[i as int]@);
            assert(sv.take(i + 1).len() - 1 == i);
        }
        match services[i].status {
            ServiceStatus::Running => {},
            ServiceStatus::Stopped => {
                if !oneshot[i] {
                    push_name(&mut failed, &services[i].name);
                }
            },
            ServiceStatus::Unknown => {
                push_name(&mut pending, &services[i].name);
            },
        }
        i = i + 1;
    }
    assert(sv.take(sv.len() as int) =~= sv);
    if failed.len() == 0 && pending.len() == 0 {
        return Ok(StartCheck::Started);
    }
    if attempt == max_attempts {
        let mut msg: Vec<char> = Vec::new();
        if failed.len() > 0 {
            extend_str(&mut msg, "启动失败的服务: ");
            let j = join_chars(&failed, &to_chars(", "));
            crate::text::extend_chars(&mut msg, &j);
        }
        if pending.len() > 0 {
            if msg.len() > 0 {
                extend_str(&mut msg, "; ");
            }
            extend_str(&mut msg, "启动超时的服务: ");
            let j = join_chars(&pending, &to_chars(", "));
            crate::text::extend_chars(&mut msg, &j);
        }
        let mut v = to_chars("服务启动验证失败: ");
        crate::text::extend_chars(&mut v, &msg);
        proof {
            reveal_strlit("启动失败的服务: ");
            reveal_strlit("启动超时的服务: ");
        }
        return Err(DuckError::Docker(from_chars(&v)));
    }
    Ok(StartCheck::Wait)
}

/// One check of the wait when the services could not be listed: the last
/// attempt fails with the reason.
pub fn check_status_unavailable(error_text: &str, attempt: u64, max_attempts: u64) -> (r: Result<
    StartCheck,
    DuckError,
>)
    ensures
        attempt == max_attempts ==> (r matches Err(DuckError::Docker(x)) && x@ == "无法获取服务状态: "@
            + error_text@),
        attempt != max_attempts ==> r == Ok::<StartCheck, DuckError>(StartCheck::Wait),
{
    if attempt == max_attempts {
        let mut v = to_chars("无法获取服务状态: ");
        extend_str(&mut v, error_text);
        Err(DuckError::Docker(from_chars(&v)))
    } else {
        Ok(StartCheck::Wait)
    }
}

/// The number of status checks in a wait of `timeout_secs` seconds, one
/// every `interval_secs` seconds; at least one, so that the state is read
/// even when the wait is shorter than the interval.
pub fn start_attempts(timeout_secs: u64, interval_secs: u64) -> (r: u64)
    requires
        interval_secs > 0,
    ensures
        r == (if timeout_secs / interval_secs == 0 {
            1
        } else {
            timeout_secs / interval_secs
        }),
{
    let n = timeout_secs / interval_secs;
    if n == 0 {
        1
    } else {
        n
    }
}

// ---------------------------------------------------------------------------
// Command lines.

pub open spec fn str_list(v: Seq<&str>) -> Seq<Seq<char>> {
    v.map_values(|s: &str| s@)
}

impl DockerManager {
    /// The arguments of `docker` that run `docker compose -f <file>` with
    /// `args`.
    pub fn compose_subcommand_args(&self, args: &Vec<&str>) -> (r: Vec<String>)
        ensures
            str_views(r@) == seq!["compose"@, "-f"@, self.spec_compose_file()] + str_list(args@),
    {
        let mut r: Vec<String> = Vec::new();
        r.push(String::from_str("compose"));
        r.push(String::from_str("-f"));
        r.push(self.compose_file.clone());
        push_all(&mut r, args);
        r
    }

    /// The arguments of `docker-compose` that run it on the Compose file
    /// with `args`.
    pub fn compose_standalone_args(&self, args: &Vec<&str>) -> (r: Vec<String>)
        ensures
            str_views(r@) == seq!["-f"@, self.spec_compose_file()] + str_list(args@),
    {
        let mut r: Vec<String> = Vec::new();
        r.push(String::from_str("-f"));
        r.push(self.compose_file.clone());
        push_all(&mut r, args);
        r
    }

    /// The arguments of the Compose `logs` command: the last `lines` lines
    /// where given, of `service_name` where given.
    pub fn logs_args(&self, service_name: Option<&str>, lines: Option<u32>) -> (r: Vec<String>)
        ensures
            str_views(r@) == seq!["logs"@] + (match lines {
                Some(n) => seq!["--tail"@, crate::split::decimal(n as nat)],
                None => Seq::<Seq<char>>::empty(),
            }) + (match service_name {
                Some(s) => seq![s@],
                None => Seq::<Seq<char>>::empty(),
            }),
    {
        let mut r: Vec<String> = Vec::new();
        r.push(String::from_str("logs"));
        match lines {
            Some(n) => {
                r.push(String::from_str("--tail"));
                let d = crate::split::decimal_chars(n as u64);
                r.push(from_chars(&d));
            },
            None => {},
        }
        match service_name {
            Some(s) => r.push(String::from_str(s)),
            None => {},
        }
        proof {
            assert(str_views(r@) =~= seq!["logs"@] + (match lines {
                Some(n) => seq!["--tail"@, crate::split::decimal(n as nat)],
                None => Seq::<Seq<char>>::empty(),
            }) + (match service_name {
                Some(s) => seq![s@],
                None => Seq::<Seq<char>>::empty(),
            }));
        }
        r
    }
}

fn push_all(r: &mut Vec<String>, args: &Vec<&str>)
    ensures
        str_views(final(r)@) == str_views(old(r)@) + str_list(args@),
{
    let mut i: usize = 0;
    while i < args.len()
        invariant
            i <= args@.len(),
            str_views(r@) == str_views(old(r)@) + str_list(args@).take(i as int),
        decreases args@.len() - i,
    {
        let x = String::from_str(args[i]);
        proof {
            lemma_str_views_push(r@, x);
            assert(str_list(args@).take(i + 1) =~= str_list(args@).take(i as int).push(args@[i as int]@));
        }
        r.push(x);
        i = i + 1;
    }
    assert(str_list(args@).take(args@.len() as int) =~= str_list(args@));
}


/// Law: a restart policy of `always`, `unless-stopped` or `on-failure`
/// marks a service as kept running, and `no` or `false` as run once,
/// whatever the service is called; with no policy, or another one, the
/// name decides.
pub proof fn law_restart_policy_decides(name: Seq<char>, other: Seq<char>)
    ensures
        !is_oneshot(Some("always"@), name),
        !is_oneshot(Some("unless-stopped"@), name),
        !is_oneshot(Some("on-failure"@), name),
        is_oneshot(Some("no"@), name),
        is_oneshot(Some("false"@), name),
        other != "always"@ && other != "unless-stopped"@ && other != "on-failure"@ && other != "no"@
            && other != "false"@ ==> is_oneshot(Some(other), name) == is_oneshot(None, name),
{
    reveal_strlit("always");
    reveal_strlit("unless-stopped");
    reveal_strlit("on-failure");
    reveal_strlit("no");
    reveal_strlit("false");
    assert("always"@.len() != "no"@.len() && "always"@.len() != "false"@.len());
    assert("unless-stopped"@.len() != "no"@.len() && "unless-stopped"@.len() != "false"@.len());
    assert("on-failure"@.len() != "no"@.len() && "on-failure"@.len() != "false"@.len());
}

} // verus!
