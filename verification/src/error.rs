//! The library's error type.
use vstd::prelude::*;
use vstd::string::StringExecFns;

verus! {

/// What went wrong. Errors raised by outside libraries are carried as their
/// text.
#[derive(Debug)]
pub enum DuckError {
    Config(String),
    DuckDb(String),
    Http(String),
    Io(String),
    Uuid(String),
    Serde(String),
    Join(String),
    Zip(String),
    WalkDir(String),
    StripPrefix(String),
    Template(String),
    Docker(String),
    Backup(String),
    Upgrade(String),
    ClientNotRegistered,
    InvalidResponse(String),
    Custom(String),
    ConfigNotFound,
    Api(String),
    DockerService(String),
}

/// The text that describes an error: a fixed lead and the carried detail.
pub open spec fn error_text(e: DuckError) -> Seq<char> {
    match e {
        DuckError::Config(s) => "配置错误: "@ + s@,
        DuckError::DuckDb(s) => "DuckDB数据库错误: "@ + s@,
        DuckError::Http(s) => "HTTP 请求错误: "@ + s@,
        DuckError::Io(s) => "IO 错误: "@ + s@,
        DuckError::Uuid(s) => "UUID 错误: "@ + s@,
        DuckError::Serde(s) => "序列化错误: "@ + s@,
        DuckError::Join(s) => "任务执行错误: "@ + s@,
        DuckError::Zip(s) => "ZIP 文件错误: "@ + s@,
        DuckError::WalkDir(s) => "目录遍历错误: "@ + s@,
        DuckError::StripPrefix(s) => "路径错误: "@ + s@,
        DuckError::Template(s) => "进度条模板错误: "@ + s@,
        DuckError::Docker(s) => "Docker 命令执行失败: "@ + s@,
        DuckError::Backup(s) => "备份操作失败: "@ + s@,
        DuckError::Upgrade(s) => "升级操作失败: "@ + s@,
        DuckError::ClientNotRegistered => "客户端未注册"@,
        DuckError::InvalidResponse(s) => "服务端响应无效: "@ + s@,
        DuckError::Custom(s) => "自定义错误: "@ + s@,
        DuckError::ConfigNotFound => "配置文件未找到"@,
        DuckError::Api(s) => "API请求失败: "@ + s@,
        DuckError::DockerService(s) => "Docker服务错误: "@ + s@,
    }
}

fn lead_and(lead: &str, detail: &String) -> (r: String)
    ensures
        r@ == lead@ + detail@,
{
    let mut s = String::from_str(lead);
    s.append(detail.as_str());
    s
}

impl DuckError {
    /// The text that describes the error.
    pub fn message(&self) -> (r: String)
        ensures
            r@ == error_text(*self),
    {
        match self {
            DuckError::Config(s) => lead_and("配置错误: ", s),
            DuckError::DuckDb(s) => lead_and("DuckDB数据库错误: ", s),
            DuckError::Http(s) => lead_and("HTTP 请求错误: ", s),
            DuckError::Io(s) => lead_and("IO 错误: ", s),
            DuckError::Uuid(s) => lead_and("UUID 错误: ", s),
            DuckError::Serde(s) => lead_and("序列化错误: ", s),
            DuckError::Join(s) => lead_and("任务执行错误: ", s),
            DuckError::Zip(s) => lead_and("ZIP 文件错误: ", s),
            DuckError::WalkDir(s) => lead_and("目录遍历错误: ", s),
            DuckError::StripPrefix(s) => lead_and("路径错误: ", s),
            DuckError::Template(s) => lead_and("进度条模板错误: ", s),
            DuckError::Docker(s) => lead_and("Docker 命令执行失败: ", s),
            DuckError::Backup(s) => lead_and("备份操作失败: ", s),
            DuckError::Upgrade(s) => lead_and("升级操作失败: ", s),
            DuckError::ClientNotRegistered => String::from_str("客户端未注册"),
            DuckError::InvalidResponse(s) => lead_and("服务端响应无效: ", s),
            DuckError::Custom(s) => lead_and("自定义错误: ", s),
            DuckError::ConfigNotFound => String::from_str("配置文件未找到"),
            DuckError::Api(s) => lead_and("API请求失败: ", s),
            DuckError::DockerService(s) => lead_and("Docker服务错误: ", s),
        }
    }

    pub fn custom(msg: String) -> (r: DuckError)
        ensures
            r == DuckError::Custom(msg),
    {
        DuckError::Custom(msg)
    }

    pub fn docker(msg: String) -> (r: DuckError)
        ensures
            r == DuckError::Docker(msg),
    {
        DuckError::Docker(msg)
    }

    pub fn backup(msg: String) -> (r: DuckError)
        ensures
            r == DuckError::Backup(msg),
    {
        DuckError::Backup(msg)
    }

    pub fn upgrade(msg: String) -> (r: DuckError)
        ensures
            r == DuckError::Upgrade(msg),
    {
        DuckError::Upgrade(msg)
    }

    pub fn docker_service(msg: String) -> (r: DuckError)
        ensures
            r == DuckError::DockerService(msg),
    {
        DuckError::DockerService(msg)
    }
}

} // verus!
