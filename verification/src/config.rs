//! The application's configuration file: its sections, the choice of the
//! file to read, its text from a template, and the directories it names.
//!
//! Paths are texts joined the way `Path::join` joins them on Unix: a part
//! that starts with `/` replaces the base, and otherwise one `/` separates
//! the base from the part unless the base is empty or already ends in `/`.
use vstd::prelude::*;
use vstd::string::StringExecFns;
use crate::text::{to_chars, from_chars, extend_str, replace_str, replace_all};

verus! {

broadcast use vstd::string::group_string_axioms;

#[derive(Debug, Clone)]
pub struct Versions {
    pub docker_service: String,
}

#[derive(Debug, Clone)]
pub struct DockerConfig {
    pub compose_file: String,
}

#[derive(Debug, Clone)]
pub struct BackupConfig {
    pub storage_dir: String,
}

#[derive(Debug, Clone)]
pub struct CacheConfig {
    pub cache_dir: String,
    pub download_dir: String,
}

#[derive(Debug, Clone)]
pub struct UpdatesConfig {
    pub check_frequency: String,
}

/// The application's configuration.
#[derive(Debug, Clone)]
pub struct AppConfig {
    pub versions: Versions,
    pub docker: DockerConfig,
    pub backup: BackupConfig,
    pub cache: CacheConfig,
    pub updates: UpdatesConfig,
}

/// `part` adjoined to `base`.
pub open spec fn join_path(base: Seq<char>, part: Seq<char>) -> Seq<char> {
    if part.len() > 0 && part[0] == '/' {
        part
    } else if base.len() == 0 || base.last() == '/' {
        base + part
    } else {
        base + seq!['/'] + part
    }
}

/// `part` adjoined to `base` (see the module documentation).
pub fn join_path_str(base: &str, part: &str) -> (r: String)
    ensures
        r@ == join_path(base@, part@),
{
    let b = to_chars(base);
    let p = to_chars(part);
    if p.len() > 0 && p[0] == '/' {
        return String::from_str(part);
    }
    let mut v = b;
    if v.len() > 0 && v[v.len() - 1] != '/' {
        v.push('/');
    }
    extend_str(&mut v, part);
    proof {
        if b@.len() > 0 && b@.last() != '/' {
            assert(v@ =~= base@ + seq!['/'] + part@);
        }
    }
    from_chars(&v)
}

/// The names under which a configuration file is looked for, in order.
pub open spec fn config_candidates() -> Seq<Seq<char>> {
    seq!["config.toml"@, "duck-client.toml"@, ".duck-client.toml"@]
}

/// Where the configuration comes from.
#[derive(Debug, Clone, Copy, PartialEq, Eq)]
pub enum ConfigSource {
    /// Read the file of this name.
    Existing(&'static str),
    /// No file was found: write the default configuration to this name.
    CreateDefault(&'static str),
}

/// The first candidate whose file exists, where `present[i]` tells whether
/// the `i`-th of `config.toml`, `duck-client.toml` and `.duck-client.toml`
/// exists; with none of them, the default written to `config.toml`.
pub fn choose_config_file(present: &Vec<bool>) -> (r: ConfigSource)
    requires
        present@.len() == 3,
    ensures
        match r {
            ConfigSource::Existing(name) => exists|i: int|
                0 <= i < 3 && present@[i] && (forall|j: int| 0 <= j < i ==> !present@[j])
                    && name@ == #[trigger] config_candidates()[i],
            ConfigSource::CreateDefault(name) => (forall|j: int| 0 <= j < 3 ==> !present@[j])
                && name@ == "config.toml"@,
        },
{
    if present[0] {
        assert(config_candidates()[0] == "config.toml"@);
        ConfigSource::Existing("config.toml")
    } else if present[1] {
        assert(config_candidates()[1] == "duck-client.toml"@);
        ConfigSource::Existing("duck-client.toml")
    } else if present[2] {
        assert(config_candidates()[2] == ".duck-client.toml"@);
        ConfigSource::Existing(".duck-client.toml")
    } else {
        ConfigSource::CreateDefault("config.toml")
    }
}

/// The configuration text made from `template`: each placeholder replaced
/// by the value it names.
pub open spec fn filled_template(c: AppConfig, template: Seq<char>) -> Seq<char> {
    let t1 = replace_all(template, "{docker_service_version}"@, c.versions.docker_service@);
    let t2 = replace_all(t1, "{compose_file}"@, c.docker.compose_file@);
    let t3 = replace_all(t2, "{backup_storage_dir}"@, c.backup.storage_dir@);
    let t4 = replace_all(t3, "{cache_dir}"@, c.cache.cache_dir@);
    let t5 = replace_all(t4, "{download_dir}"@, c.cache.download_dir@);
    replace_all(t5, "{check_frequency}"@, c.updates.check_frequency@)
}

impl AppConfig {
    /// The configuration as the text of `template`, with the placeholders
    /// `{docker_service_version}`, `{compose_file}`, `{backup_storage_dir}`,
    /// `{cache_dir}`, `{download_dir}` and `{check_frequency}` filled in.
    pub fn to_toml_with_comments(&self, template: &str) -> (r: String)
        ensures
            r@ == filled_template(*self, template@),
    {
        proof {
            reveal_strlit("{docker_service_version}");
            reveal_strlit("{compose_file}");
            reveal_strlit("{backup_storage_dir}");
            reveal_strlit("{cache_dir}");
            reveal_strlit("{download_dir}");
            reveal_strlit("{check_frequency}");
        }
        let t1 = replace_str(
            template,
            "{docker_service_version}",
            self.versions.docker_service.as_str(),
        );
        let t2 = replace_str(t1.as_str(), "{compose_file}", self.docker.compose_file.as_str());
        let t3 = replace_str(t2.as_str(), "{backup_storage_dir}", self.backup.storage_dir.as_str());
        let t4 = replace_str(t3.as_str(), "{cache_dir}", self.cache.cache_dir.as_str());
        let t5 = replace_str(t4.as_str(), "{download_dir}", self.cache.download_dir.as_str());
        replace_str(t5.as_str(), "{check_frequency}", self.updates.check_frequency.as_str())
    }

    /// The download directory.
    pub fn get_download_dir(&self) -> (r: String)
        ensures
            r@ == self.cache.download_dir@,
    {
        self.cache.download_dir.clone()
    }

    /// The directory for downloads of `download_type` of `version`: the
    /// download directory, then the version, then the type.
    pub fn get_version_download_dir(&self, version: &str, download_type: &str) -> (r: String)
        ensures
            r@ == join_path(join_path(self.cache.download_dir@, version@), download_type@),
    {
        let d = join_path_str(self.cache.download_dir.as_str(), version);
        join_path_str(d.as_str(), download_type)
    }

    /// The path of the file `filename` in that directory.
    pub fn get_version_download_file_path(
        &self,
        version: &str,
        download_type: &str,
        filename: &str,
    ) -> (r: String)
        ensures
            r@ == join_path(
                join_path(join_path(self.cache.download_dir@, version@), download_type@),
                filename@,
            ),
    {
        let d = self.get_version_download_dir(version, download_type);
        join_path_str(d.as_str(), filename)
    }

    /// The backup directory.
    pub fn get_backup_dir(&self) -> (r: String)
        ensures
            r@ == self.backup.storage_dir@,
    {
        self.backup.storage_dir.clone()
    }
}

} // verus!
