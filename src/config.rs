//! The user's settings: where the transcription web app lives and the key
//! that authorises requests to it.

use vstd::prelude::*;
use vstd::string::StrSliceExecFns;
use crate::text::{chars_of, owned, trim_end_char};

verus! {

/// The settings.
#[derive(Debug, Clone)]
pub struct AppConfig {
    pub web_app_url: String,
    pub api_key: Option<String>,
}

/// The transcription endpoint under the web app at `url`.
pub open spec fn endpoint_of(url: Seq<char>) -> Seq<char> {
    trim_end_char(url, '/') + "/api/transcribe"@
}

impl AppConfig {
    /// The settings of a fresh install: a local web app, no key.
    pub fn default_config() -> (r: AppConfig)
        ensures
            r.web_app_url@ == "http://localhost:3000"@,
            r.api_key is None,
    {
        AppConfig { web_app_url: owned("http://localhost:3000"), api_key: None }
    }

    /// The transcription API endpoint: the web app's URL without trailing
    /// slashes, followed by `/api/transcribe`.
    pub fn transcribe_endpoint(&self) -> (r: String)
        ensures
            r@ == endpoint_of(self.web_app_url@),
    {
        let url = self.web_app_url.as_str();
        let v = chars_of(url);
        let mut end: usize = v.len();
        proof {
            assert(v@.take(end as int) =~= v@);
        }
        while end > 0 && v[end - 1] == '/'
            invariant
                end <= v.len(),
                trim_end_char(v@.take(end as int), '/') == trim_end_char(v@, '/'),
            decreases end,
        {
            proof {
                assert(v@.take(end as int).drop_last() =~= v@.take(end - 1));
            }
            end = end - 1;
        }
        proof {
            if end > 0 {
                assert(v@.take(end as int).last() == v@[end - 1]);
            }
        }
        let mut r = owned(url.substring_char(0, end));
        r.append("/api/transcribe");
        r
    }
}

impl Default for AppConfig {
    fn default() -> (r: AppConfig)
        ensures
            r.web_app_url@ == "http://localhost:3000"@,
            r.api_key is None,
    {
        AppConfig::default_config()
    }
}

} // verus!
