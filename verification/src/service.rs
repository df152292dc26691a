//! Discovery of council services (language-model hosts) on the local
//! network: which hosts to ask, what to ask them, and how to read the
//! answer. The HTTP requests are made by the application.
use vstd::prelude::*;
use crate::json::{get_str, json_get, json_parse_result, parse_json, Json, JsonValue};
use crate::text::{concat, decimal, owned, push_decimal, str_eq};
use vstd::string::StringExecFns;

verus! {

/// A council service found on the network.
pub struct CouncilService {
    pub hostname: String,
    pub name: String,
    pub title: String,
    pub position: String,
    pub endpoint: String,
    pub model: String,
    /// `available`, `out_of_office` or `error`.
    pub status: String,
}

/// Where to look for services.
pub struct ServiceDiscovery {
    pub scan_pattern: String,
    pub web_port: u16,
}

/// What a host says of its service in `/.survon/service.json`.
pub struct ServiceMetadata {
    pub service_type: String,
    pub council_position: String,
    pub position_display: String,
    pub model_name: String,
    pub api_contract: String,
    pub ollama_api: String,
}

/// Why a host offers no usable service.
#[derive(Clone, Copy, Debug, PartialEq, Eq, Structural)]
pub enum ServiceError {
    /// The answer is not a service description.
    InvalidMetadata,
    /// The service speaks another API contract.
    InvalidApiContract,
}

/// The API contract a council service must speak.
pub open spec fn required_contract() -> Seq<char> {
    "survon-llm-service-v1"@
}

/// The council positions looked for, in order.
pub open spec fn council_positions() -> Seq<Seq<char>> {
    seq![
        "physician"@,
        "agronomist"@,
        "botanist"@,
        "rancher"@,
        "security"@,
        "engineer"@,
        "crafter"@,
        "technologist"@,
        "counselor"@,
        "wilderness"@,
        "storyteller"@,
    ]
}

/// The host name of a position: `survon-<position>.local`.
pub open spec fn host_for(position: Seq<char>) -> Seq<char> {
    "survon-"@ + position + ".local"@
}

/// The service description of a document, where it has every field the
/// service description needs as a string.
pub open spec fn metadata_of(v: Json) -> Option<(Seq<char>, Seq<char>, Seq<char>, Seq<char>, Seq<char>, Seq<char>)> {
    match (
        get_str(v, "service_type"@),
        get_str(v, "council_position"@),
        get_str(v, "position_display"@),
        get_str(v, "model_name"@),
        get_str(v, "api_contract"@),
        match json_get(v, "endpoints"@) {
            Some(e) => get_str(e, "ollama_api"@),
            None => None,
        },
    ) {
        (Some(a), Some(b), Some(c), Some(d), Some(e), Some(f)) => Some((a, b, c, d, e, f)),
        _ => None,
    }
}

impl ServiceMetadata {
    pub open spec fn fields(&self) -> (Seq<char>, Seq<char>, Seq<char>, Seq<char>, Seq<char>, Seq<char>) {
        (
            self.service_type@,
            self.council_position@,
            self.position_display@,
            self.model_name@,
            self.api_contract@,
            self.ollama_api@,
        )
    }

    /// Reads a service description from a parsed document.
    pub fn from_json(v: &JsonValue) -> (r: Option<ServiceMetadata>)
        ensures
            r is None <==> metadata_of(v@) is None,
            r matches Some(m) ==> metadata_of(v@) == Some(m.fields()),
    {
        let a = match v.get("service_type") {
            Some(x) => match x.as_str() {
                Some(s) => s,
                None => return None,
            },
            None => return None,
        };
        let b = match v.get("council_position") {
            Some(x) => match x.as_str() {
                Some(s) => s,
                None => return None,
            },
            None => return None,
        };
        let c = match v.get("position_display") {
            Some(x) => match x.as_str() {
                Some(s) => s,
                None => return None,
            },
            None => return None,
        };
        let d = match v.get("model_name") {
            Some(x) => match x.as_str() {
                Some(s) => s,
                None => return None,
            },
            None => return None,
        };
        let e = match v.get("api_contract") {
            Some(x) => match x.as_str() {
                Some(s) => s,
                None => return None,
            },
            None => return None,
        };
        let f = match v.get("endpoints") {
            Some(ep) => match ep.get("ollama_api") {
                Some(x) => match x.as_str() {
                    Some(s) => s,
                    None => return None,
                },
                None => return None,
            },
            None => return None,
        };
        Some(
            ServiceMetadata {
                service_type: owned(a),
                council_position: owned(b),
                position_display: owned(c),
                model_name: owned(d),
                api_contract: owned(e),
                ollama_api: owned(f),
            },
        )
    }

    /// Reads a service description from the text of the answer.
    pub fn parse(text: &str) -> (r: Option<ServiceMetadata>)
        ensures
            r is Some ==> json_parse_result(text@) is Some,
            json_parse_result(text@) is None ==> r is None,
            json_parse_result(text@) matches Some(v) ==> (r is None <==> metadata_of(v) is None)
                && (r matches Some(m) ==> metadata_of(v) == Some(m.fields())),
    {
        match parse_json(text) {
            Some(v) => ServiceMetadata::from_json(&v),
            None => None,
        }
    }
}

impl ServiceDiscovery {
    pub fn new(scan_pattern: String, web_port: u16) -> (r: Self)
        ensures
            r.scan_pattern@ == scan_pattern@,
            r.web_port == web_port,
    {
        Self { scan_pattern, web_port }
    }

    /// The host names to ask, one per council position, in order.
    pub fn candidate_hostnames(&self) -> (r: Vec<String>)
        ensures
            r@.map_values(|s: String| s@) == council_positions().map_values(
                |p: Seq<char>| host_for(p),
            ),
    {
        let positions = vec![
            "physician",
            "agronomist",
            "botanist",
            "rancher",
            "security",
            "engineer",
            "crafter",
            "technologist",
            "counselor",
            "wilderness",
            "storyteller",
        ];
        let ghost want = council_positions().map_values(|p: Seq<char>| host_for(p));
        assert(positions@.map_values(|p: &str| p@) =~= council_positions());
        let mut r: Vec<String> = Vec::new();
        let mut i: usize = 0;
        while i < positions.len()
            invariant
                i <= positions@.len(),
                positions@.len() == 11,
                positions@.map_values(|p: &str| p@) == council_positions(),
                want == council_positions().map_values(|p: Seq<char>| host_for(p)),
                r@.map_values(|s: String| s@) == want.take(i as int),
            decreases positions.len() - i,
        {
            let mut h = owned("survon-");
            h.append(positions[i]);
            h.append(".local");
            let ghost before = r@;
            proof {
                assert(positions@.map_values(|p: &str| p@)[i as int] == positions@[i as int]@);
                assert(h@ == want[i as int]);
            }
            let ghost hv = h@;
            r.push(h);
            proof {
                assert(r@.map_values(|s: String| s@) =~= before.map_values(|s: String| s@).push(hv));
                assert(want.take(i + 1) =~= want.take(i as int).push(want[i as int]));
            }
            i = i + 1;
        }
        assert(want.take(i as int) =~= want);
        r
    }

    /// Where a host describes its service:
    /// `http://<host>:<port>/.survon/service.json`.
    pub fn service_url(&self, hostname: &str) -> (r: String)
        ensures
            r@ == "http://"@ + hostname@ + ":"@ + decimal(self.web_port as nat)
                + "/.survon/service.json"@,
    {
        let mut s = owned("http://");
        s.append(hostname);
        s.append(":");
        push_decimal(&mut s, self.web_port as u64);
        s.append("/.survon/service.json");
        s
    }
}

/// Where to check that a model host answers: `<endpoint>/api/tags`.
pub fn ollama_tags_url(endpoint: &str) -> (r: String)
    ensures
        r@ == endpoint@ + "/api/tags"@,
{
    concat(endpoint, "/api/tags")
}

/// The service a host offers, given its description and whether its model
/// endpoint answered: refused unless it speaks the council contract;
/// `available` when the endpoint answered, `out_of_office` otherwise.
pub fn service_from_metadata(hostname: &str, metadata: ServiceMetadata, endpoint_answered: bool) -> (r:
    Result<CouncilService, ServiceError>)
    ensures
        metadata.api_contract@ != required_contract() ==> r == Err::<CouncilService, ServiceError>(
            ServiceError::InvalidApiContract,
        ),
        metadata.api_contract@ == required_contract() ==> (r matches Ok(s) && s.hostname@
            == hostname@ && s.name@ == metadata.position_display@ && s.title@
            == metadata.position_display@ && s.position@ == metadata.council_position@
            && s.endpoint@ == metadata.ollama_api@ && s.model@ == metadata.model_name@ && s.status@
            == if endpoint_answered {
            "available"@
        } else {
            "out_of_office"@
        }),
{
    if !str_eq(metadata.api_contract.as_str(), "survon-llm-service-v1") {
        return Err(ServiceError::InvalidApiContract);
    }
    let status = if endpoint_answered {
        owned("available")
    } else {
        owned("out_of_office")
    };
    Ok(
        CouncilService {
            hostname: owned(hostname),
            name: metadata.position_display.clone(),
            title: metadata.position_display,
            position: metadata.council_position,
            endpoint: metadata.ollama_api,
            model: metadata.model_name,
            status,
        },
    )
}

} // verus!
