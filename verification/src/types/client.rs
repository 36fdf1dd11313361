use vstd::prelude::*;

verus! {

/// Which proxies each of the two HTTP clients goes through: the API client
/// uses every proxy, the download client only when downloads are proxied too.
pub struct ProxyPlan {
    pub api: Vec<String>,
    pub download: Vec<String>,
}

/// Shares out the proxies between the API client and the download client.
pub fn plan_proxies(proxies: Option<Vec<String>>, proxy_downloads: bool) -> (res: ProxyPlan)
    ensures
        res.api@ == match proxies {
            Some(p) => p@,
            None => Seq::<String>::empty(),
        },
        res.download@ == if proxy_downloads {
            res.api@
        } else {
            Seq::<String>::empty()
        },
{
    let api = match proxies {
        Some(p) => p,
        None => Vec::new(),
    };
    let mut download: Vec<String> = Vec::new();
    if proxy_downloads {
        let mut i: usize = 0;
        while i < api.len()
            invariant
                i <= api@.len(),
                download@ == api@.take(i as int),
            decreases api@.len() - i,
        {
            download.push(api[i].clone());
            assert(download@ =~= api@.take(i + 1));
            i = i + 1;
        }
        assert(api@.take(api@.len() as int) =~= api@);
    }
    ProxyPlan { api, download }
}

} // verus!
