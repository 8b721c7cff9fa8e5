//! The rules of the HTTP API: what a request must hold, what it is
//! answered, and the records it creates; the transport stands outside.
use vstd::prelude::*;
use vstd::string::StringSliceAdditionalSpecFns;
use vstd::utf8::{decode_utf8, is_char_boundary};
use crate::chat::{sel, text_or};
use crate::crypto_detect::one_if;
use crate::model::{
    BinaryIdentity, FileHashes, IdentityView, MalwareFamily, crypto_views, function_views,
    import_views, network_views, string_views, CryptoFindingView, ExtractedStringView, FunctionView,
    ImportView, NetworkIndicatorView,
};
use crate::report::{AnalysisReport, GraphPayload, MalwareClassification};
use crate::strings::take_upto;
use crate::text::{
    contains_seq, copy_string, eq_str, has, is_alnum, is_space, lower, lower_chars, lower_seq,
    opt_view, owned, push_str, push_string, starts_with, starts_with_seq, str_chars, string_of,
    strings_view, utf8,
};

verus! {

// ---------------------------------------------------------------------------
// Request bodies
// ---------------------------------------------------------------------------

/// The query of an upload.
#[derive(Debug, Clone)]
pub struct UploadQueryOptions {
    pub enable_ai: Option<bool>,
}

/// A new annotation on an analysis.
#[derive(Debug, Clone)]
pub struct AnnotationBody {
    pub target_address: Option<u64>,
    pub target_kind: String,
    pub body: String,
    pub highlight_color: Option<String>,
}

/// A registration.
#[derive(Debug, Clone)]
pub struct RegisterRequest {
    pub email: String,
    pub password: String,
    pub name: String,
    pub org_name: Option<String>,
}

/// A login.
#[derive(Debug, Clone)]
pub struct LoginRequest {
    pub email: String,
    pub password: String,
}

/// The query an identity provider redirects back with.
#[derive(Debug, Clone)]
pub struct CallbackQuery {
    pub code: Option<String>,
    pub state: Option<String>,
    pub error: Option<String>,
}

/// A search within an analysis.
#[derive(Debug, Clone)]
pub struct SearchQuery {
    pub q: String,
    pub kind: Option<String>,
}

/// A new snapshot.
#[derive(Debug, Clone)]
pub struct SnapshotBody {
    pub label: Option<String>,
}

/// A refused request: its HTTP status and message.
#[derive(Debug, Clone)]
pub struct Refusal {
    pub status: u16,
    pub message: String,
}

fn refusal(status: u16, message: &str) -> (r: Refusal)
    ensures
        r.status == status,
        r.message@ == message@,
{
    Refusal { status, message: owned(message) }
}

// ---------------------------------------------------------------------------
// Authentication header
// ---------------------------------------------------------------------------

/// The bearer token of an `Authorization` header: 401 without the header,
/// 401 where it does not start with `Bearer `.
pub fn bearer_token(header: Option<&str>) -> (r: Result<String, Refusal>)
    ensures
        match header {
            None => r matches Err(e) && e.status == 401 && e.message@ == "missing authorization"@,
            Some(h) => if starts_with_seq(h@, "Bearer "@) {
                r matches Ok(t) && t@ == h@.subrange(7, h@.len() as int)
            } else {
                r matches Err(e) && e.status == 401 && e.message@ == "expected Bearer token"@
            },
        },
{
    match header {
        None => Err(refusal(401, "missing authorization")),
        Some(h) => {
            let c = str_chars(h);
            if starts_with(c.as_slice(), "Bearer ") {
                proof {
                    reveal_strlit("Bearer ");
                }
                let t = crate::text::slice_chars(c.as_slice(), 7, c.len());
                Ok(string_of(t.as_slice()))
            } else {
                Err(refusal(401, "expected Bearer token"))
            }
        },
    }
}

// ---------------------------------------------------------------------------
// Uploads
// ---------------------------------------------------------------------------

/// The largest upload accepted: 512 MiB.
pub open spec fn max_upload() -> int {
    536_870_912
}

/// A multipart field carries the file where it is named `file` or `binary`
/// or has a file name.
pub fn is_file_field(name: &str, has_file_name: bool) -> (r: bool)
    ensures
        r == (name@ == "file"@ || name@ == "binary"@ || has_file_name),
{
    let c = str_chars(name);
    eq_str(c.as_slice(), "file") || eq_str(c.as_slice(), "binary") || has_file_name
}

/// An upload needs a file (400), that is not empty (400), of at most 512 MiB
/// (413).
pub fn check_upload(data: &Option<Vec<u8>>) -> (r: Result<(), Refusal>)
    ensures
        match data {
            None => r matches Err(e) && e.status == 400 && e.message@ == "missing file field"@,
            Some(d) => if d@.len() == 0 {
                r matches Err(e) && e.status == 400 && e.message@ == "empty file"@
            } else if d@.len() > max_upload() {
                r matches Err(e) && e.status == 413 && e.message@ == "max upload size is 512MB"@
            } else {
                r is Ok
            },
        },
{
    match data {
        None => Err(refusal(400, "missing file field")),
        Some(d) => {
            if d.len() == 0 {
                Err(refusal(400, "empty file"))
            } else if d.len() > 512 * 1024 * 1024 {
                Err(refusal(413, "max upload size is 512MB"))
            } else {
                Ok(())
            }
        },
    }
}

/// Where an uploaded file is stored.
pub fn storage_key(org_id: &str, project_id: &str, file_id: &str) -> (r: String)
    ensures
        r@ == "org/"@ + org_id@ + "/project/"@ + project_id@ + "/"@ + file_id@,
{
    let mut s = owned("org/");
    push_str(&mut s, org_id);
    push_str(&mut s, "/project/");
    push_str(&mut s, project_id);
    push_str(&mut s, "/");
    push_str(&mut s, file_id);
    s
}

/// The identity of a file not analysed yet: everything unknown or absent.
pub open spec fn is_empty_identity(id: IdentityView) -> bool {
    &&& id.format == crate::model::BinaryFormat::Unknown
    &&& id.architecture == crate::model::Architecture::Unknown
    &&& id.endianness == "unknown"@
    &&& id.bits == 0
    &&& id.os == crate::model::OperatingSystem::Unknown
    &&& !id.is_dll && !id.is_driver && !id.is_shared_object
    &&& id.entry_point is None && id.image_base is None
    &&& id.compiler is None && id.compiler_version is None && id.language is None
    &&& id.build_system is None && id.framework is None && id.linker is None
    &&& !id.packed && id.packer is None && !id.obfuscated
    &&& id.obfuscation.len() == 0 && id.encrypted_sections.len() == 0
    &&& !id.compressed && !id.has_debug_symbols && !id.has_signature && id.mime is None
}

/// The identity of a file not analysed yet.
pub fn empty_identity() -> (r: BinaryIdentity)
    ensures
        is_empty_identity(r@),
{
    BinaryIdentity {
        format: crate::model::BinaryFormat::Unknown,
        architecture: crate::model::Architecture::Unknown,
        endianness: owned("unknown"),
        bits: 0,
        os: crate::model::OperatingSystem::Unknown,
        is_dll: false,
        is_driver: false,
        is_shared_object: false,
        entry_point: None,
        image_base: None,
        compiler: None,
        compiler_version: None,
        language: None,
        build_system: None,
        framework: None,
        linker: None,
        packed: false,
        packer: None,
        obfuscated: false,
        obfuscation: Vec::new(),
        encrypted_sections: Vec::new(),
        compressed: false,
        has_debug_symbols: false,
        has_signature: false,
        mime: None,
    }
}

/// The verdict of a file not classified yet: unknown family, nothing found.
pub fn empty_malware() -> (r: MalwareClassification)
    ensures
        r.family == MalwareFamily::Unknown,
        r.confidence == 0 && r.malware_probability == 0,
        r.reasoning@ == "pending"@,
        r.evidence@.len() == 0 && r.suspicious_apis@.len() == 0 && r.suspicious_strings@.len() == 0,
        r.behaviors@.len() == 0 && r.persistence@.len() == 0 && r.privilege_escalation@.len() == 0,
        r.process_injection@.len() == 0 && r.anti_analysis@.len() == 0,
{
    MalwareClassification {
        family: MalwareFamily::Unknown,
        confidence: 0,
        malware_probability: 0,
        reasoning: owned("pending"),
        evidence: Vec::new(),
        suspicious_apis: Vec::new(),
        suspicious_strings: Vec::new(),
        behaviors: Vec::new(),
        persistence: Vec::new(),
        privilege_escalation: Vec::new(),
        process_injection: Vec::new(),
        anti_analysis: Vec::new(),
    }
}

/// The report of an upload before its analysis: queued at no progress, with
/// the file's name, size and hashes, everything else empty.
pub fn pending_report(
    analysis_id: &str,
    file_id: &str,
    project_id: &str,
    filename: &str,
    size_bytes: u64,
    hashes: FileHashes,
) -> (r: AnalysisReport)
    ensures
        r.id@ == analysis_id@,
        r.file_id@ == file_id@,
        r.project_id@ == project_id@,
        r.stage == crate::pipeline::PipelineStage::Queued,
        r.progress == 0,
        r.completed_at is None && r.error is None,
        r.filename@ == filename@,
        r.size_bytes == size_bytes,
        r.hashes == hashes,
        is_empty_identity(r.identity@),
        r.malware.family == MalwareFamily::Unknown && r.malware.malware_probability == 0,
        r.sections@.len() == 0 && r.imports@.len() == 0 && r.exports@.len() == 0,
        r.strings@.len() == 0 && r.network@.len() == 0 && r.crypto@.len() == 0,
        r.packers@.len() == 0 && r.functions@.len() == 0 && r.security@.len() == 0,
        r.resources@.len() == 0 && r.dependencies@.len() == 0,
        !r.signature.present,
        r.call_graph@.nodes.len() == 0 && r.call_graph@.edges.len() == 0,
        r.network_intel@ == "{}"@ && r.decomp_backends@ == "[]"@ && r.language_structures@ == "[]"@,
        r.executive_summary@ == "Queued"@ && r.technical_summary@ == "Queued"@,
        r.iocs@.len() == 0 && r.yara_rules@.len() == 0,
        r.sbom@ == "{}"@,
{
    let now = crate::reports::now_rfc3339();
    let created = copy_string(&now);
    AnalysisReport {
        id: owned(analysis_id),
        file_id: owned(file_id),
        project_id: owned(project_id),
        stage: crate::pipeline::PipelineStage::Queued,
        progress: 0,
        created_at: created,
        updated_at: now,
        completed_at: None,
        error: None,
        filename: owned(filename),
        size_bytes,
        hashes,
        identity: empty_identity(),
        sections: Vec::new(),
        imports: Vec::new(),
        exports: Vec::new(),
        strings: Vec::new(),
        network: Vec::new(),
        crypto: Vec::new(),
        packers: Vec::new(),
        functions: Vec::new(),
        security: Vec::new(),
        malware: empty_malware(),
        signature: crate::model::DigitalSignatureInfo {
            present: false,
            valid: None,
            subject: None,
            issuer: None,
            serial: None,
            not_before: None,
            not_after: None,
            algorithm: None,
        },
        resources: Vec::new(),
        dependencies: Vec::new(),
        call_graph: GraphPayload::empty(),
        cfg_summary: GraphPayload::empty(),
        import_graph: GraphPayload::empty(),
        dfg: GraphPayload::empty(),
        memory_graph: GraphPayload::empty(),
        network_graph: GraphPayload::empty(),
        network_intel: owned("{}"),
        decomp_backends: owned("[]"),
        language_structures: owned("[]"),
        executive_summary: owned("Queued"),
        technical_summary: owned("Queued"),
        iocs: Vec::new(),
        yara_rules: Vec::new(),
        sbom: owned("{}"),
    }
}

// ---------------------------------------------------------------------------
// Registration
// ---------------------------------------------------------------------------

/// An organization slug: ASCII letters and digits lowercased, anything else
/// a hyphen, at most 48 characters.
pub open spec fn spec_slugify(s: Seq<char>) -> Seq<char> {
    take_upto(s.map_values(|c: char| if is_alnum(c) { lower(c) } else { '-' }), 48)
}

/// The slug of a text.
pub fn slugify(s: &str) -> (r: String)
    ensures
        r@ == spec_slugify(s@),
{
    let c = str_chars(s);
    let n: usize = if c.len() < 48 { c.len() } else { 48 };
    let mut out: Vec<char> = Vec::new();
    let mut i: usize = 0;
    while i < n
        invariant
            i <= n,
            n <= c@.len(),
            n == (if c@.len() < 48 { c@.len() as int } else { 48int }),
            c@ == s@,
            out@ == c@.subrange(0, i as int).map_values(|c: char| if is_alnum(c) { lower(c) } else { '-' }),
        decreases n - i,
    {
        let x = c[i];
        let y = if crate::text::alnum(x) { crate::text::lower_char(x) } else { '-' };
        out.push(y);
        proof {
            assert(c@.subrange(0, i + 1).map_values(|c: char| if is_alnum(c) { lower(c) } else { '-' }) =~= c@.subrange(
                0,
                i as int,
            ).map_values(|c: char| if is_alnum(c) { lower(c) } else { '-' }).push(y));
        }
        i += 1;
    }
    proof {
        assert(take_upto(c@.map_values(|c: char| if is_alnum(c) { lower(c) } else { '-' }), 48) =~= c@.subrange(
            0,
            n as int,
        ).map_values(|c: char| if is_alnum(c) { lower(c) } else { '-' }));
    }
    string_of(out.as_slice())
}

/// A registration needs a password of at least eight bytes (400).
pub fn check_registration(req: &RegisterRequest) -> (r: Result<(), Refusal>)
    ensures
        r is Ok <==> utf8(req.password@).len() >= 8,
        r matches Err(e) ==> e.status == 400 && e.message@ == "password must be at least 8 characters"@,
{
    if req.password.as_str().as_bytes().len() < 8 {
        Err(refusal(400, "password must be at least 8 characters"))
    } else {
        Ok(())
    }
}

/// The organization a registration creates is named as asked, else
/// `{name}'s Org`.
pub fn registration_org_name(req: &RegisterRequest) -> (r: String)
    ensures
        r@ == text_or(opt_view(req.org_name), req.name@ + "'s Org"@),
{
    match &req.org_name {
        Some(n) => copy_string(n),
        None => {
            let mut s = copy_string(&req.name);
            push_str(&mut s, "'s Org");
            s
        },
    }
}

// ---------------------------------------------------------------------------
// OAuth callback
// ---------------------------------------------------------------------------

/// The authorization code of a callback: an error from the provider is
/// answered 400 with its text, a missing code 400.
pub fn callback_code(q: &CallbackQuery) -> (r: Result<String, Refusal>)
    ensures
        match q.error {
            Some(err) => r matches Err(e) && e.status == 400 && e.message@ == err@,
            None => match q.code {
                Some(c) => r matches Ok(x) && x@ == c@,
                None => r matches Err(e) && e.status == 400 && e.message@ == "missing code"@,
            },
        },
{
    match &q.error {
        Some(err) => Err(Refusal { status: 400, message: copy_string(err) }),
        None => match &q.code {
            Some(c) => Ok(copy_string(c)),
            None => Err(refusal(400, "missing code")),
        },
    }
}

/// The form that exchanges the code for a token.
pub fn token_form(cfg: &crate::auth::OAuthProviderConfig, code: &str) -> (r: Vec<(String, String)>)
    ensures
        r@.len() == 5,
        (r@[0].0@, r@[0].1@) == ("client_id"@, cfg.client_id@),
        (r@[1].0@, r@[1].1@) == ("client_secret"@, cfg.client_secret@),
        (r@[2].0@, r@[2].1@) == ("code"@, code@),
        (r@[3].0@, r@[3].1@) == ("redirect_uri"@, cfg.redirect_uri@),
        (r@[4].0@, r@[4].1@) == ("grant_type"@, "authorization_code"@),
{
    let mut v: Vec<(String, String)> = Vec::new();
    v.push((owned("client_id"), copy_string(&cfg.client_id)));
    v.push((owned("client_secret"), copy_string(&cfg.client_secret)));
    v.push((owned("code"), owned(code)));
    v.push((owned("redirect_uri"), copy_string(&cfg.redirect_uri)));
    v.push((owned("grant_type"), owned("authorization_code")));
    v
}

/// The user a provider's profile describes: the e-mail (else the login,
/// else `unknown@oauth.local`), the name (else the login, else the e-mail)
/// and the picture (else the avatar).
pub open spec fn spec_oauth_profile(
    email: Option<Seq<char>>,
    login: Option<Seq<char>>,
    name: Option<Seq<char>>,
    picture: Option<Seq<char>>,
    avatar_url: Option<Seq<char>>,
) -> (Seq<char>, Seq<char>, Option<Seq<char>>) {
    let e = match email {
        Some(x) => x,
        None => text_or(login, "unknown@oauth.local"@),
    };
    let n = match name {
        Some(x) => x,
        None => text_or(login, e),
    };
    let a = match picture {
        Some(x) => Some(x),
        None => avatar_url,
    };
    (e, n, a)
}

/// The e-mail, name and avatar of the user a provider's profile describes.
pub fn oauth_profile(
    email: Option<String>,
    login: Option<String>,
    name: Option<String>,
    picture: Option<String>,
    avatar_url: Option<String>,
) -> (r: (String, String, Option<String>))
    ensures
        (r.0@, r.1@, opt_view(r.2)) == spec_oauth_profile(
            opt_view(email),
            opt_view(login),
            opt_view(name),
            opt_view(picture),
            opt_view(avatar_url),
        ),
{
    let e = match email {
        Some(x) => x,
        None => match &login {
            Some(l) => copy_string(l),
            None => owned("unknown@oauth.local"),
        },
    };
    let n = match name {
        Some(x) => x,
        None => match &login {
            Some(l) => copy_string(l),
            None => copy_string(&e),
        },
    };
    let a = match picture {
        Some(x) => Some(x),
        None => avatar_url,
    };
    (e, n, a)
}

/// The organization an OAuth sign-up creates: `{name} Org`, with the slug
/// `oauth-` and the first eight bytes of the user's identifier.
pub fn oauth_org(user_name: &str, user_id: &str) -> (r: (String, String))
    requires
        utf8(user_id@).len() >= 8,
        is_char_boundary(utf8(user_id@), 8),
    ensures
        r.0@ == user_name@ + " Org"@,
        r.1@ == "oauth-"@ + decode_utf8(utf8(user_id@).subrange(0, 8)),
{
    let mut name = owned(user_name);
    push_str(&mut name, " Org");
    let (head, _) = user_id.split_at(8);
    let mut slug = owned("oauth-");
    push_str(&mut slug, head);
    proof {
        assert(head.spec_bytes() == utf8(user_id@).subrange(0, 8));
        vstd::utf8::encode_utf8_decode_utf8(head@);
    }
    (name, slug)
}

// ---------------------------------------------------------------------------
// Graph selection
// ---------------------------------------------------------------------------

/// The graphs of a report a client may ask for.
#[derive(Debug, Clone, Copy, PartialEq, Eq, Structural)]
pub enum GraphKind {
    Call,
    Cfg,
    Imports,
    Dfg,
    Memory,
    Network,
}

/// The graph a kind names: `call`, `cfg`, `imports`, `dfg`, `memory` or
/// `network`.
pub open spec fn spec_graph_kind(k: Seq<char>) -> Option<GraphKind> {
    if k == "call"@ {
        Some(GraphKind::Call)
    } else if k == "cfg"@ {
        Some(GraphKind::Cfg)
    } else if k == "imports"@ {
        Some(GraphKind::Imports)
    } else if k == "dfg"@ {
        Some(GraphKind::Dfg)
    } else if k == "memory"@ {
        Some(GraphKind::Memory)
    } else if k == "network"@ {
        Some(GraphKind::Network)
    } else {
        None
    }
}

/// The graph a kind asks for; any other kind is answered 400.
pub fn graph_kind(kind: &str) -> (r: Result<GraphKind, Refusal>)
    ensures
        match spec_graph_kind(kind@) {
            Some(g) => r matches Ok(x) && x == g,
            None => r matches Err(e) && e.status == 400
                && e.message@ == "unknown graph kind (call|cfg|imports|dfg|memory|network)"@,
        },
{
    let c = str_chars(kind);
    let k = c.as_slice();
    if eq_str(k, "call") {
        Ok(GraphKind::Call)
    } else if eq_str(k, "cfg") {
        Ok(GraphKind::Cfg)
    } else if eq_str(k, "imports") {
        Ok(GraphKind::Imports)
    } else if eq_str(k, "dfg") {
        Ok(GraphKind::Dfg)
    } else if eq_str(k, "memory") {
        Ok(GraphKind::Memory)
    } else if eq_str(k, "network") {
        Ok(GraphKind::Network)
    } else {
        Err(refusal(400, "unknown graph kind (call|cfg|imports|dfg|memory|network)"))
    }
}

// ---------------------------------------------------------------------------
// GraphQL
// ---------------------------------------------------------------------------

/// What a GraphQL query asks for.
#[derive(Debug, Clone, Copy, PartialEq, Eq, Structural)]
pub enum GraphqlAction {
    Providers,
    Projects,
    Analysis,
}

/// A query naming providers lists them; one naming projects and no analysis
/// lists the organization's projects; any other asks for an analysis.
pub fn graphql_action(query: &str) -> (r: GraphqlAction)
    ensures
        r == (if contains_seq(lower_seq(query@), "providers"@) {
            GraphqlAction::Providers
        } else if contains_seq(lower_seq(query@), "projects"@) && !contains_seq(lower_seq(query@), "analysis"@) {
            GraphqlAction::Projects
        } else {
            GraphqlAction::Analysis
        }),
{
    let c = str_chars(query);
    let q = lower_chars(c.as_slice());
    if has(q.as_slice(), "providers") {
        GraphqlAction::Providers
    } else {
        let projects = has(q.as_slice(), "projects");
        let analysis = has(q.as_slice(), "analysis");
        if projects && !analysis {
            GraphqlAction::Projects
        } else {
            GraphqlAction::Analysis
        }
    }
}

pub open spec fn is_id_end(c: char) -> bool {
    c == '"' || c == '\'' || c == ')' || c == ' ' || c == ','
}

/// Leading quotes removed.
pub open spec fn skip_quotes(s: Seq<char>) -> Seq<char>
    decreases s.len(),
{
    if s.len() > 0 && (s[0] == '"' || s[0] == '\'') {
        skip_quotes(s.drop_first())
    } else {
        s
    }
}

/// The index of the first character ending an identifier, at `i` or later.
pub open spec fn id_end_from(s: Seq<char>, i: int) -> Option<int>
    decreases s.len() - i,
{
    if i < 0 || i >= s.len() {
        None
    } else if is_id_end(s[i]) {
        Some(i)
    } else {
        id_end_from(s, i + 1)
    }
}

/// The identifier written after `analysis(id:` in a query (the marker
/// matched in any letter case): white space and quotes skipped, up to a
/// quote, parenthesis, space or comma; `None` without the marker or an end.
pub open spec fn spec_id_literal(q: Seq<char>) -> Option<Seq<char>> {
    match crate::text::find_seq(lower_seq(q), "analysis(id:"@) {
        None => None,
        Some(i) => {
            let rest = skip_quotes(crate::text::trim_start(q.subrange(i + 12, q.len() as int)));
            match id_end_from(rest, 0) {
                None => None,
                Some(e) => Some(rest.subrange(0, e)),
            }
        },
    }
}

fn skip_quotes_exec(s: &[char]) -> (r: Vec<char>)
    ensures
        r@ == skip_quotes(s@),
{
    let n = s.len();
    let mut k: usize = 0;
    proof {
        assert(s@.subrange(0, n as int) =~= s@);
    }
    while k < n && (s[k] == '"' || s[k] == '\'')
        invariant
            k <= n,
            n == s@.len(),
            skip_quotes(s@) == skip_quotes(s@.subrange(k as int, n as int)),
        decreases n - k,
    {
        proof {
            assert(s@.subrange(k as int, n as int).drop_first() =~= s@.subrange(k + 1, n as int));
        }
        k += 1;
    }
    crate::text::slice_chars(s, k, n)
}

fn trim_start_exec(s: &[char]) -> (r: Vec<char>)
    ensures
        r@ == crate::text::trim_start(s@),
{
    let n = s.len();
    let mut k: usize = 0;
    proof {
        assert(s@.subrange(0, n as int) =~= s@);
    }
    while k < n && crate::text::space(s[k])
        invariant
            k <= n,
            n == s@.len(),
            crate::text::trim_start(s@) == crate::text::trim_start(s@.subrange(k as int, n as int)),
        decreases n - k,
    {
        proof {
            assert(s@.subrange(k as int, n as int).drop_first() =~= s@.subrange(k + 1, n as int));
        }
        k += 1;
    }
    crate::text::slice_chars(s, k, n)
}

/// The analysis identifier written literally in a GraphQL query.
pub fn extract_id_literal(q: &str) -> (r: Option<String>)
    ensures
        opt_view(r) == spec_id_literal(q@),
{
    let c = str_chars(q);
    let l = lower_chars(c.as_slice());
    let m = str_chars("analysis(id:");
    let found = crate::text::find_chars(l.as_slice(), m.as_slice());
    match found {
        None => None,
        Some(i) => {
            proof {
                reveal_strlit("analysis(id:");
                crate::text::lemma_find_from_bounds(l@, m@, 0);
                assert(m@.len() == 12);
                assert(l@.len() == c@.len());
                assert(i + 12 <= c@.len());
            }
            let n = c.len();
            let rest0 = crate::text::slice_chars(c.as_slice(), i + 12, n);
            let rest1 = trim_start_exec(rest0.as_slice());
            let rest = skip_quotes_exec(rest1.as_slice());
            let mut e: usize = 0;
            while e < rest.len() && !(rest[e] == '"' || rest[e] == '\'' || rest[e] == ')' || rest[e] == ' '
                || rest[e] == ',')
                invariant
                    e <= rest@.len(),
                    id_end_from(rest@, 0) == id_end_from(rest@, e as int),
                decreases rest@.len() - e,
            {
                e += 1;
            }
            if e == rest.len() {
                None
            } else {
                let id = crate::text::slice_chars(rest.as_slice(), 0, e);
                Some(string_of(id.as_slice()))
            }
        },
    }
}

// ---------------------------------------------------------------------------
// Search
// ---------------------------------------------------------------------------

/// The positions below `n` that satisfy `p`, in order.
pub open spec fn positions(n: int, p: spec_fn(int) -> bool) -> Seq<int>
    decreases n,
{
    if n <= 0 {
        seq![]
    } else {
        positions(n - 1, p) + one_if(p(n - 1), n - 1)
    }
}

pub open spec fn index_view(v: Seq<usize>) -> Seq<int> {
    v.map_values(|i: usize| i as int)
}

/// The search covers this list: the kind is absent or `all`, or names it.
pub open spec fn covers(kind: Option<Seq<char>>, list: Seq<char>) -> bool {
    text_or(kind, "all"@) == "all"@ || text_or(kind, "all"@) == list
}

/// What a function is searched by: its name, suggested name and
/// description, lowercased.
pub open spec fn function_haystack(f: FunctionView) -> Seq<char> {
    lower_seq(f.name + " "@ + text_or(f.suggested_name, ""@) + " "@ + text_or(f.description, ""@))
}

/// Where a search matched, as positions in the report's lists.
#[derive(Debug, Clone)]
pub struct SearchHits {
    pub functions: Vec<usize>,
    pub imports: Vec<usize>,
    pub exports: Vec<usize>,
    /// The first hundred.
    pub strings: Vec<usize>,
    pub crypto: Vec<usize>,
    pub network: Vec<usize>,
}

fn collect_positions(n: usize, hits: Ghost<spec_fn(int) -> bool>, test: &Vec<bool>) -> (r: Vec<usize>)
    requires
        test@.len() == n,
        forall|i: int| 0 <= i < n ==> test@[i] == (hits@)(i),
    ensures
        index_view(r@) == positions(n as int, hits@),
{
    let mut out: Vec<usize> = Vec::new();
    let mut i: usize = 0;
    while i < n
        invariant
            i <= n,
            test@.len() == n,
            forall|j: int| 0 <= j < n ==> test@[j] == (hits@)(j),
            index_view(out@) == positions(i as int, hits@),
        decreases n - i,
    {
        let ghost ob = out@;
        if test[i] {
            out.push(i);
            proof {
                assert(index_view(out@) =~= index_view(ob).push(i as int));
            }
        }
        proof {
            assert(index_view(out@) =~= positions(i as int, hits@) + one_if((hits@)(i as int), i as int));
        }
        i += 1;
    }
    out
}

fn lowered(s: &String) -> (r: Vec<char>)
    ensures
        r@ == lower_seq(s@),
{
    let c = str_chars(s.as_str());
    lower_chars(c.as_slice())
}

/// Searches an analysis for a text, in any letter case: function names,
/// suggested names and descriptions, import symbols and modules, export
/// symbols, string values (the first hundred matches), cryptographic
/// algorithms and network indicators; `kind` limits the search to one list.
pub fn search_report(report: &AnalysisReport, q: &str, kind: Option<&str>) -> (r: SearchHits)
    ensures
        ({
            let needle = lower_seq(q@);
            let k = crate::crypto_detect::opt_str(kind);
            let fv = function_views(report.functions@);
            let iv = import_views(report.imports@);
            let sv = string_views(report.strings@);
            let cv = crypto_views(report.crypto@);
            let nv = network_views(report.network@);
            &&& index_view(r.functions@) == positions(
                if covers(k, "functions"@) { fv.len() as int } else { 0 },
                |i: int| contains_seq(function_haystack(fv[i]), needle),
            )
            &&& index_view(r.imports@) == positions(
                if covers(k, "imports"@) { iv.len() as int } else { 0 },
                |i: int| contains_seq(lower_seq(iv[i].symbol), needle) || contains_seq(lower_seq(iv[i].module), needle),
            )
            &&& index_view(r.exports@) == positions(
                if covers(k, "exports"@) { report.exports@.len() as int } else { 0 },
                |i: int| contains_seq(lower_seq(report.exports@[i].symbol@), needle),
            )
            &&& index_view(r.strings@) == take_upto(positions(
                if covers(k, "strings"@) { sv.len() as int } else { 0 },
                |i: int| contains_seq(lower_seq(sv[i].value), needle),
            ), 100)
            &&& index_view(r.crypto@) == positions(
                if covers(k, "crypto"@) { cv.len() as int } else { 0 },
                |i: int| contains_seq(lower_seq(cv[i].algorithm), needle),
            )
            &&& index_view(r.network@) == positions(
                if covers(k, "network"@) { nv.len() as int } else { 0 },
                |i: int| contains_seq(lower_seq(nv[i].value), needle),
            )
        }),
{
    let qc = str_chars(q);
    let needle = lower_chars(qc.as_slice());
    let kind_all = match kind {
        Some(k) => k,
        None => "all",
    };
    let kc = str_chars(kind_all);
    let all = eq_str(kc.as_slice(), "all");
    proof {
        assert(text_or(crate::crypto_detect::opt_str(kind), "all"@) == kind_all@);
    }

    let ghost fv = function_views(report.functions@);
    let mut ft: Vec<bool> = Vec::new();
    let fn_on = all || eq_str(kc.as_slice(), "functions");
    let nf: usize = if fn_on { report.functions.len() } else { 0 };
    let mut i: usize = 0;
    while i < nf
        invariant
            i <= nf,
            nf <= report.functions@.len(),
            fv == function_views(report.functions@),
            needle@ == lower_seq(q@),
            ft@.len() == i,
            forall|j: int| 0 <= j < i ==> ft@[j] == contains_seq(function_haystack(#[trigger] fv[j]), needle@),
        decreases nf - i,
    {
        let f = &report.functions[i];
        let mut hay = copy_string(&f.name);
        push_str(&mut hay, " ");
        match &f.suggested_name {
            Some(sname) => push_string(&mut hay, sname),
            None => {
                proof {
                    reveal_strlit("");
                    assert(hay@ =~= hay@ + ""@);
                }
            },
        }
        push_str(&mut hay, " ");
        match &f.description {
            Some(d) => push_string(&mut hay, d),
            None => {
                proof {
                    reveal_strlit("");
                    assert(hay@ =~= hay@ + ""@);
                }
            },
        }
        let lh = lowered(&hay);
        ft.push(crate::text::contains_chars(lh.as_slice(), needle.as_slice()));
        proof {
            assert(hay@ =~= fv[i as int].name + " "@ + text_or(fv[i as int].suggested_name, ""@) + " "@ + text_or(
                fv[i as int].description,
                ""@,
            ));
        }
        i += 1;
    }
    let functions = collect_positions(
        nf,
        Ghost(|j: int| contains_seq(function_haystack(fv[j]), needle@)),
        &ft,
    );

    let ghost iv = import_views(report.imports@);
    let imp_on = all || eq_str(kc.as_slice(), "imports");
    let ni: usize = if imp_on { report.imports.len() } else { 0 };
    let mut it: Vec<bool> = Vec::new();
    let mut i: usize = 0;
    while i < ni
        invariant
            i <= ni,
            ni <= report.imports@.len(),
            iv == import_views(report.imports@),
            it@.len() == i,
            forall|j: int| 0 <= j < i ==> it@[j] == (contains_seq(lower_seq(#[trigger] iv[j].symbol), needle@)
                || contains_seq(lower_seq(iv[j].module), needle@)),
        decreases ni - i,
    {
        let s = lowered(&report.imports[i].symbol);
        let m = lowered(&report.imports[i].module);
        let hit = crate::text::contains_chars(s.as_slice(), needle.as_slice()) || crate::text::contains_chars(
            m.as_slice(),
            needle.as_slice(),
        );
        it.push(hit);
        i += 1;
    }
    let imports = collect_positions(
        ni,
        Ghost(|j: int| contains_seq(lower_seq(iv[j].symbol), needle@) || contains_seq(lower_seq(iv[j].module), needle@)),
        &it,
    );

    let exp_on = all || eq_str(kc.as_slice(), "exports");
    let ne: usize = if exp_on { report.exports.len() } else { 0 };
    let mut et: Vec<bool> = Vec::new();
    let mut i: usize = 0;
    while i < ne
        invariant
            i <= ne,
            ne <= report.exports@.len(),
            et@.len() == i,
            forall|j: int| 0 <= j < i ==> et@[j] == contains_seq(lower_seq(#[trigger] report.exports@[j].symbol@), needle@),
        decreases ne - i,
    {
        let s = lowered(&report.exports[i].symbol);
        et.push(crate::text::contains_chars(s.as_slice(), needle.as_slice()));
        i += 1;
    }
    let exports = collect_positions(
        ne,
        Ghost(|j: int| contains_seq(lower_seq(report.exports@[j].symbol@), needle@)),
        &et,
    );

    let ghost sv = string_views(report.strings@);
    let str_on = all || eq_str(kc.as_slice(), "strings");
    let ns: usize = if str_on { report.strings.len() } else { 0 };
    let mut st: Vec<bool> = Vec::new();
    let mut i: usize = 0;
    while i < ns
        invariant
            i <= ns,
            ns <= report.strings@.len(),
            sv == string_views(report.strings@),
            st@.len() == i,
            forall|j: int| 0 <= j < i ==> st@[j] == contains_seq(lower_seq(#[trigger] sv[j].value), needle@),
        decreases ns - i,
    {
        let s = lowered(&report.strings[i].value);
        st.push(crate::text::contains_chars(s.as_slice(), needle.as_slice()));
        i += 1;
    }
    let mut strings = collect_positions(
        ns,
        Ghost(|j: int| contains_seq(lower_seq(sv[j].value), needle@)),
        &st,
    );
    let ghost before = strings@;
    if strings.len() > 100 {
        strings.truncate(100);
    }
    proof {
        assert(index_view(strings@) =~= take_upto(index_view(before), 100));
    }

    let ghost cv = crypto_views(report.crypto@);
    let cr_on = all || eq_str(kc.as_slice(), "crypto");
    let nc: usize = if cr_on { report.crypto.len() } else { 0 };
    let mut ct: Vec<bool> = Vec::new();
    let mut i: usize = 0;
    while i < nc
        invariant
            i <= nc,
            nc <= report.crypto@.len(),
            cv == crypto_views(report.crypto@),
            ct@.len() == i,
            forall|j: int| 0 <= j < i ==> ct@[j] == contains_seq(lower_seq(#[trigger] cv[j].algorithm), needle@),
        decreases nc - i,
    {
        let s = lowered(&report.crypto[i].algorithm);
        ct.push(crate::text::contains_chars(s.as_slice(), needle.as_slice()));
        i += 1;
    }
    let crypto = collect_positions(
        nc,
        Ghost(|j: int| contains_seq(lower_seq(cv[j].algorithm), needle@)),
        &ct,
    );

    let ghost nv = network_views(report.network@);
    let net_on = all || eq_str(kc.as_slice(), "network");
    let nn: usize = if net_on { report.network.len() } else { 0 };
    let mut nt: Vec<bool> = Vec::new();
    let mut i: usize = 0;
    while i < nn
        invariant
            i <= nn,
            nn <= report.network@.len(),
            nv == network_views(report.network@),
            nt@.len() == i,
            forall|j: int| 0 <= j < i ==> nt@[j] == contains_seq(lower_seq(#[trigger] nv[j].value), needle@),
        decreases nn - i,
    {
        let s = lowered(&report.network[i].value);
        nt.push(crate::text::contains_chars(s.as_slice(), needle.as_slice()));
        i += 1;
    }
    let network = collect_positions(
        nn,
        Ghost(|j: int| contains_seq(lower_seq(nv[j].value), needle@)),
        &nt,
    );
    SearchHits { functions, imports, exports, strings, crypto, network }
}

// ---------------------------------------------------------------------------
// Chat sessions
// ---------------------------------------------------------------------------

/// The title of a chat session: the first 64 characters of its first message.
pub fn session_title(message: &str) -> (r: String)
    ensures
        r@ == take_upto(message@, 64),
{
    let c = str_chars(message);
    let n: usize = if c.len() < 64 { c.len() } else { 64 };
    let t = crate::text::slice_chars(c.as_slice(), 0, n);
    proof {
        if c@.len() <= 64 {
            assert(c@.subrange(0, n as int) =~= c@);
        }
    }
    string_of(t.as_slice())
}

} // verus!
