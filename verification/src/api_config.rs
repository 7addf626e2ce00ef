//! The server address and the paths of its endpoints, and the full URLs
//! made from them.
use vstd::prelude::*;
use vstd::string::StringExecFns;
use crate::text::{to_chars, from_chars, extend_str, extend_chars, replace_str, replace_all};

verus! {

broadcast use vstd::string::group_string_axioms;

/// The paths of the server's endpoints, relative to its base URL.
#[derive(Debug, Clone)]
pub struct ApiEndpoints {
    pub client_register: String,
    pub announcements: String,
    pub docker_check_version: String,
    pub docker_update_version_list: String,
    pub docker_download_full: String,
    pub client_self_upgrade_history: String,
    pub service_upgrade_history: String,
    pub telemetry: String,
}

/// The server's base URL and its endpoints.
#[derive(Debug, Clone)]
pub struct ApiConfig {
    pub base_url: String,
    pub endpoints: ApiEndpoints,
}

/// The labelled URLs shown to users, in order.
pub open spec fn endpoints_info(c: ApiConfig) -> Seq<(Seq<char>, Seq<char>)> {
    seq![
        ("服务器地址"@, c.base_url@),
        ("客户端注册"@, c.base_url@ + c.endpoints.client_register@),
        ("获取公告"@, c.base_url@ + c.endpoints.announcements@),
        ("检查Docker版本"@, c.base_url@ + c.endpoints.docker_check_version@),
        ("Docker版本列表"@, c.base_url@ + c.endpoints.docker_update_version_list@),
        ("下载Docker更新"@, c.base_url@ + c.endpoints.docker_download_full@),
        ("上报遥测数据"@, c.base_url@ + c.endpoints.telemetry@),
    ]
}

pub open spec fn info_views(v: Seq<(&'static str, String)>) -> Seq<(Seq<char>, Seq<char>)> {
    v.map_values(|e: (&'static str, String)| (e.0@, e.1@))
}

/// The lines that describe a configuration: a heading, the server address,
/// and one indented line per labelled URL.
pub open spec fn info_lines(info: Seq<(Seq<char>, Seq<char>)>) -> Seq<char>
    decreases info.len(),
{
    if info.len() == 0 {
        Seq::empty()
    } else {
        info_lines(info.drop_last()) + "  "@ + info.last().0 + ": "@ + info.last().1 + "\n"@
    }
}

pub open spec fn config_text(c: ApiConfig) -> Seq<char> {
    "当前API配置:\n服务器地址: "@ + c.base_url@ + "\n\n主要端点:\n"@ + info_lines(endpoints_info(c))
}

impl ApiConfig {
    /// The full URL of `endpoint`: the base URL followed by it.
    pub fn get_endpoint_url(&self, endpoint: &str) -> (r: String)
        ensures
            r@ == self.base_url@ + endpoint@,
    {
        let mut v = to_chars(self.base_url.as_str());
        extend_str(&mut v, endpoint);
        from_chars(&v)
    }

    pub fn get_client_register_url(&self) -> (r: String)
        ensures
            r@ == self.base_url@ + self.endpoints.client_register@,
    {
        self.get_endpoint_url(self.endpoints.client_register.as_str())
    }

    pub fn get_announcements_url(&self) -> (r: String)
        ensures
            r@ == self.base_url@ + self.endpoints.announcements@,
    {
        self.get_endpoint_url(self.endpoints.announcements.as_str())
    }

    pub fn get_docker_check_version_url(&self) -> (r: String)
        ensures
            r@ == self.base_url@ + self.endpoints.docker_check_version@,
    {
        self.get_endpoint_url(self.endpoints.docker_check_version.as_str())
    }

    pub fn get_docker_update_version_list_url(&self) -> (r: String)
        ensures
            r@ == self.base_url@ + self.endpoints.docker_update_version_list@,
    {
        self.get_endpoint_url(self.endpoints.docker_update_version_list.as_str())
    }

    pub fn get_docker_download_full_url(&self) -> (r: String)
        ensures
            r@ == self.base_url@ + self.endpoints.docker_download_full@,
    {
        self.get_endpoint_url(self.endpoints.docker_download_full.as_str())
    }

    /// The URL of the upgrade history of `service_name`: each
    /// `{service_name}` in the endpoint's path is replaced by the name.
    pub fn get_service_upgrade_history_url(&self, service_name: &str) -> (r: String)
        ensures
            r@ == self.base_url@ + replace_all(
                self.endpoints.service_upgrade_history@,
                "{service_name}"@,
                service_name@,
            ),
    {
        proof {
            reveal_strlit("{service_name}");
        }
        let endpoint = replace_str(
            self.endpoints.service_upgrade_history.as_str(),
            "{service_name}",
            service_name,
        );
        self.get_endpoint_url(endpoint.as_str())
    }

    pub fn get_telemetry_url(&self) -> (r: String)
        ensures
            r@ == self.base_url@ + self.endpoints.telemetry@,
    {
        self.get_endpoint_url(self.endpoints.telemetry.as_str())
    }

    /// The labelled URLs shown to users: the server address, then the
    /// registration, announcement, version check, version list, download
    /// and telemetry URLs.
    pub fn get_endpoints_info(&self) -> (r: Vec<(&'static str, String)>)
        ensures
            info_views(r@) == endpoints_info(*self),
    {
        let mut r: Vec<(&'static str, String)> = Vec::new();
        r.push(("服务器地址", self.base_url.clone()));
        r.push(("客户端注册", self.get_client_register_url()));
        r.push(("获取公告", self.get_announcements_url()));
        r.push(("检查Docker版本", self.get_docker_check_version_url()));
        r.push(("Docker版本列表", self.get_docker_update_version_list_url()));
        r.push(("下载Docker更新", self.get_docker_download_full_url()));
        r.push(("上报遥测数据", self.get_telemetry_url()));
        assert(info_views(r@) =~= endpoints_info(*self));
        r
    }

    /// The description of the configuration shown to users.
    pub fn to_string(&self) -> (r: String)
        ensures
            r@ == config_text(*self),
    {
        let info = self.get_endpoints_info();
        let mut v = to_chars("当前API配置:\n服务器地址: ");
        extend_str(&mut v, self.base_url.as_str());
        extend_str(&mut v, "\n\n主要端点:\n");
        let ghost head = v@;
        let mut i: usize = 0;
        while i < info.len()
            invariant
                i <= info@.len(),
                info_views(info@) == endpoints_info(*self),
                v@ == head + info_lines(info_views(info@).take(i as int)),
            decreases info@.len() - i,
        {
            proof {
                let t = info_views(info@).take(i + 1);
                assert(t.drop_last() =~= info_views(info@).take(i as int));
                assert(t.last() == (info@[i as int].0@, info@[i as int].1@));
            }
            extend_str(&mut v, "  ");
            extend_str(&mut v, info[i].0);
            extend_str(&mut v, ": ");
            extend_str(&mut v, info[i].1.as_str());
            extend_str(&mut v, "\n");
            i = i + 1;
            assert(v@ =~= head + info_lines(info_views(info@).take(i as int)));
        }
        assert(info_views(info@).take(info@.len() as int) =~= info_views(info@));
        from_chars(&v)
    }
}

} // verus!
