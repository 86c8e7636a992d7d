//! The attribute kind catalog: the closed set of recognized attribute
//! keywords, their canonical display spellings, and the case-insensitive
//! keyword lookup, together with the per-kind payload grammars and the
//! typed value model.
use vstd::prelude::*;
use vstd::string::StrSliceExecFns;
use vstd::string::StringExecFns;

use crate::error::SdpParserError;
use crate::strutil::ci_eq;
use crate::strutil::eq_ignore_case;
use crate::strutil::lower_char;
use crate::strutil::to_lower;

verus! {

/// The closed set of recognized attribute keywords.
#[derive(Clone, Copy, Debug, PartialEq, Eq, Structural)]
pub enum SdpAttributeType {
    BundleOnly,
    Candidate,
    EndOfCandidates,
    Extmap,
    Fingerprint,
    Fmtp,
    Group,
    IceLite,
    IceOptions,
    IcePwd,
    IceUfrag,
    Inactive,
    Mid,
    Msid,
    MsidSemantic,
    Rid,
    Recvonly,
    Rtcp,
    RtcpFb,
    RtcpMux,
    RtcpRsize,
    Rtpmap,
    Sctpmap,
    SctpPort,
    Sendonly,
    Sendrecv,
    Setup,
    Simulcast,
    Ssrc,
    SsrcGroup,
}

impl SdpAttributeType {
    /// The canonical display spelling of each kind, used for diagnostics
    /// and round-tripping.
    pub open spec fn display_spec(&self) -> Seq<char> {
        match self {
            SdpAttributeType::BundleOnly => "Bundle-Only"@,
            SdpAttributeType::Candidate => "Candidate"@,
            SdpAttributeType::EndOfCandidates => "End-Of-Candidates"@,
            SdpAttributeType::Extmap => "Extmap"@,
            SdpAttributeType::Fingerprint => "Fingerprint"@,
            SdpAttributeType::Fmtp => "Fmtp"@,
            SdpAttributeType::Group => "Group"@,
            SdpAttributeType::IceLite => "Ice-Lite"@,
            SdpAttributeType::IceOptions => "Ice-Options"@,
            SdpAttributeType::IcePwd => "Ice-Pwd"@,
            SdpAttributeType::IceUfrag => "Ice-Ufrag"@,
            SdpAttributeType::Inactive => "Inactive"@,
            SdpAttributeType::Mid => "Mid"@,
            SdpAttributeType::Msid => "Msid"@,
            SdpAttributeType::MsidSemantic => "Msid-Semantic"@,
            SdpAttributeType::Rid => "Rid"@,
            SdpAttributeType::Recvonly => "Recvonly"@,
            SdpAttributeType::Rtcp => "Rtcp"@,
            SdpAttributeType::RtcpFb => "Rtcp-Fb"@,
            SdpAttributeType::RtcpMux => "Rtcp-Mux"@,
            SdpAttributeType::RtcpRsize => "Rtcp-Rsize"@,
            SdpAttributeType::Rtpmap => "Rtpmap"@,
            SdpAttributeType::Sctpmap => "Sctpmap"@,
            SdpAttributeType::SctpPort => "Sctp-Port"@,
            SdpAttributeType::Sendonly => "Sendonly"@,
            SdpAttributeType::Sendrecv => "Sendrecv"@,
            SdpAttributeType::Setup => "Setup"@,
            SdpAttributeType::Simulcast => "Simulcast"@,
            SdpAttributeType::Ssrc => "Ssrc"@,
            SdpAttributeType::SsrcGroup => "Ssrc-Group"@,
        }
    }

    /// Returns the canonical display spelling, exactly as specified by
    /// [`Self::display_spec`].
    pub fn display_string(&self) -> (r: String)
        ensures
            r@ == self.display_spec(),
    {
        match self {
            SdpAttributeType::BundleOnly => String::from_str("Bundle-Only"),
            SdpAttributeType::Candidate => String::from_str("Candidate"),
            SdpAttributeType::EndOfCandidates => String::from_str("End-Of-Candidates"),
            SdpAttributeType::Extmap => String::from_str("Extmap"),
            SdpAttributeType::Fingerprint => String::from_str("Fingerprint"),
            SdpAttributeType::Fmtp => String::from_str("Fmtp"),
            SdpAttributeType::Group => String::from_str("Group"),
            SdpAttributeType::IceLite => String::from_str("Ice-Lite"),
            SdpAttributeType::IceOptions => String::from_str("Ice-Options"),
            SdpAttributeType::IcePwd => String::from_str("Ice-Pwd"),
            SdpAttributeType::IceUfrag => String::from_str("Ice-Ufrag"),
            SdpAttributeType::Inactive => String::from_str("Inactive"),
            SdpAttributeType::Mid => String::from_str("Mid"),
            SdpAttributeType::Msid => String::from_str("Msid"),
            SdpAttributeType::MsidSemantic => String::from_str("Msid-Semantic"),
            SdpAttributeType::Rid => String::from_str("Rid"),
            SdpAttributeType::Recvonly => String::from_str("Recvonly"),
            SdpAttributeType::Rtcp => String::from_str("Rtcp"),
            SdpAttributeType::RtcpFb => String::from_str("Rtcp-Fb"),
            SdpAttributeType::RtcpMux => String::from_str("Rtcp-Mux"),
            SdpAttributeType::RtcpRsize => String::from_str("Rtcp-Rsize"),
            SdpAttributeType::Rtpmap => String::from_str("Rtpmap"),
            SdpAttributeType::Sctpmap => String::from_str("Sctpmap"),
            SdpAttributeType::SctpPort => String::from_str("Sctp-Port"),
            SdpAttributeType::Sendonly => String::from_str("Sendonly"),
            SdpAttributeType::Sendrecv => String::from_str("Sendrecv"),
            SdpAttributeType::Setup => String::from_str("Setup"),
            SdpAttributeType::Simulcast => String::from_str("Simulcast"),
            SdpAttributeType::Ssrc => String::from_str("Ssrc"),
            SdpAttributeType::SsrcGroup => String::from_str("Ssrc-Group"),
        }
    }
}

/// Which attribute kind a keyword names, if any: an exact ASCII
/// case-insensitive match against the closed keyword table.
pub open spec fn kind_of_keyword(s: Seq<char>) -> Option<SdpAttributeType> {
    if ci_eq(s, "bundle-only"@) {
        Some(SdpAttributeType::BundleOnly)
    } else if ci_eq(s, "candidate"@) {
        Some(SdpAttributeType::Candidate)
    } else if ci_eq(s, "end-of-candidates"@) {
        Some(SdpAttributeType::EndOfCandidates)
    } else if ci_eq(s, "extmap"@) {
        Some(SdpAttributeType::Extmap)
    } else if ci_eq(s, "fingerprint"@) {
        Some(SdpAttributeType::Fingerprint)
    } else if ci_eq(s, "fmtp"@) {
        Some(SdpAttributeType::Fmtp)
    } else if ci_eq(s, "group"@) {
        Some(SdpAttributeType::Group)
    } else if ci_eq(s, "ice-lite"@) {
        Some(SdpAttributeType::IceLite)
    } else if ci_eq(s, "ice-options"@) {
        Some(SdpAttributeType::IceOptions)
    } else if ci_eq(s, "ice-pwd"@) {
        Some(SdpAttributeType::IcePwd)
    } else if ci_eq(s, "ice-ufrag"@) {
        Some(SdpAttributeType::IceUfrag)
    } else if ci_eq(s, "inactive"@) {
        Some(SdpAttributeType::Inactive)
    } else if ci_eq(s, "mid"@) {
        Some(SdpAttributeType::Mid)
    } else if ci_eq(s, "msid"@) {
        Some(SdpAttributeType::Msid)
    } else if ci_eq(s, "msid-semantic"@) {
        Some(SdpAttributeType::MsidSemantic)
    } else if ci_eq(s, "rid"@) {
        Some(SdpAttributeType::Rid)
    } else if ci_eq(s, "recvonly"@) {
        Some(SdpAttributeType::Recvonly)
    } else if ci_eq(s, "rtcp"@) {
        Some(SdpAttributeType::Rtcp)
    } else if ci_eq(s, "rtcp-fb"@) {
        Some(SdpAttributeType::RtcpFb)
    } else if ci_eq(s, "rtcp-mux"@) {
        Some(SdpAttributeType::RtcpMux)
    } else if ci_eq(s, "rtcp-rsize"@) {
        Some(SdpAttributeType::RtcpRsize)
    } else if ci_eq(s, "rtpmap"@) {
        Some(SdpAttributeType::Rtpmap)
    } else if ci_eq(s, "sctpmap"@) {
        Some(SdpAttributeType::Sctpmap)
    } else if ci_eq(s, "sctp-port"@) {
        Some(SdpAttributeType::SctpPort)
    } else if ci_eq(s, "sendonly"@) {
        Some(SdpAttributeType::Sendonly)
    } else if ci_eq(s, "sendrecv"@) {
        Some(SdpAttributeType::Sendrecv)
    } else if ci_eq(s, "setup"@) {
        Some(SdpAttributeType::Setup)
    } else if ci_eq(s, "simulcast"@) {
        Some(SdpAttributeType::Simulcast)
    } else if ci_eq(s, "ssrc"@) {
        Some(SdpAttributeType::Ssrc)
    } else if ci_eq(s, "ssrc-group"@) {
        Some(SdpAttributeType::SsrcGroup)
    } else {
        None
    }
}

/// Classifies a keyword, exactly as specified by [`kind_of_keyword`];
/// an unknown keyword is the soft failure, carrying the keyword itself.
pub fn parse_attribute_kind(name: &str) -> (r: Result<SdpAttributeType, SdpParserError>)
    ensures
        r matches Ok(k) ==> kind_of_keyword(name@) == Some(k),
        r is Ok <==> kind_of_keyword(name@) is Some,
        r matches Err(e) ==> e.kind() is Unsupported && e.offending() == name@,
{
    if eq_ignore_case(name, "bundle-only") {
        Ok(SdpAttributeType::BundleOnly)
    } else if eq_ignore_case(name, "candidate") {
        Ok(SdpAttributeType::Candidate)
    } else if eq_ignore_case(name, "end-of-candidates") {
        Ok(SdpAttributeType::EndOfCandidates)
    } else if eq_ignore_case(name, "extmap") {
        Ok(SdpAttributeType::Extmap)
    } else if eq_ignore_case(name, "fingerprint") {
        Ok(SdpAttributeType::Fingerprint)
    } else if eq_ignore_case(name, "fmtp") {
        Ok(SdpAttributeType::Fmtp)
    } else if eq_ignore_case(name, "group") {
        Ok(SdpAttributeType::Group)
    } else if eq_ignore_case(name, "ice-lite") {
        Ok(SdpAttributeType::IceLite)
    } else if eq_ignore_case(name, "ice-options") {
        Ok(SdpAttributeType::IceOptions)
    } else if eq_ignore_case(name, "ice-pwd") {
        Ok(SdpAttributeType::IcePwd)
    } else if eq_ignore_case(name, "ice-ufrag") {
        Ok(SdpAttributeType::IceUfrag)
    } else if eq_ignore_case(name, "inactive") {
        Ok(SdpAttributeType::Inactive)
    } else if eq_ignore_case(name, "mid") {
        Ok(SdpAttributeType::Mid)
    } else if eq_ignore_case(name, "msid") {
        Ok(SdpAttributeType::Msid)
    } else if eq_ignore_case(name, "msid-semantic") {
        Ok(SdpAttributeType::MsidSemantic)
    } else if eq_ignore_case(name, "rid") {
        Ok(SdpAttributeType::Rid)
    } else if eq_ignore_case(name, "recvonly") {
        Ok(SdpAttributeType::Recvonly)
    } else if eq_ignore_case(name, "rtcp") {
        Ok(SdpAttributeType::Rtcp)
    } else if eq_ignore_case(name, "rtcp-fb") {
        Ok(SdpAttributeType::RtcpFb)
    } else if eq_ignore_case(name, "rtcp-mux") {
        Ok(SdpAttributeType::RtcpMux)
    } else if eq_ignore_case(name, "rtcp-rsize") {
        Ok(SdpAttributeType::RtcpRsize)
    } else if eq_ignore_case(name, "rtpmap") {
        Ok(SdpAttributeType::Rtpmap)
    } else if eq_ignore_case(name, "sctpmap") {
        Ok(SdpAttributeType::Sctpmap)
    } else if eq_ignore_case(name, "sctp-port") {
        Ok(SdpAttributeType::SctpPort)
    } else if eq_ignore_case(name, "sendonly") {
        Ok(SdpAttributeType::Sendonly)
    } else if eq_ignore_case(name, "sendrecv") {
        Ok(SdpAttributeType::Sendrecv)
    } else if eq_ignore_case(name, "setup") {
        Ok(SdpAttributeType::Setup)
    } else if eq_ignore_case(name, "simulcast") {
        Ok(SdpAttributeType::Simulcast)
    } else if eq_ignore_case(name, "ssrc") {
        Ok(SdpAttributeType::Ssrc)
    } else if eq_ignore_case(name, "ssrc-group") {
        Ok(SdpAttributeType::SsrcGroup)
    } else {
        Err(SdpParserError::Unsupported {
            message: String::from_str("unsupported attribute value"),
            line: String::from_str(name),
        })
    }
}

proof fn lemma_ci_ne_len(a: Seq<char>, b: Seq<char>)
    requires
        a.len() != b.len(),
    ensures
        !ci_eq(a, b),
{
    assert(to_lower(a).len() == a.len());
    assert(to_lower(b).len() == b.len());
}

proof fn lemma_ci_ne_at(a: Seq<char>, b: Seq<char>, i: int)
    requires
        0 <= i < a.len(),
        i < b.len(),
        lower_char(a[i]) != lower_char(b[i]),
    ensures
        !ci_eq(a, b),
{
    assert(to_lower(a)[i] == lower_char(a[i]));
    assert(to_lower(b)[i] == lower_char(b[i]));
}

proof fn rt_bundle_only()
    ensures
        kind_of_keyword(SdpAttributeType::BundleOnly.display_spec()) == Some(SdpAttributeType::BundleOnly),
{
    reveal_strlit("Bundle-Only");
    reveal_strlit("bundle-only");
    assert(ci_eq("Bundle-Only"@, "bundle-only"@)) by {
        assert(to_lower("Bundle-Only"@) =~= to_lower("bundle-only"@));
    }
}

proof fn rt_candidate()
    ensures
        kind_of_keyword(SdpAttributeType::Candidate.display_spec()) == Some(SdpAttributeType::Candidate),
{
    reveal_strlit("Candidate");
    reveal_strlit("bundle-only");
    reveal_strlit("candidate");
    lemma_ci_ne_len("Candidate"@, "bundle-only"@);
    assert(ci_eq("Candidate"@, "candidate"@)) by {
        assert(to_lower("Candidate"@) =~= to_lower("candidate"@));
    }
}

proof fn rt_end_of_candidates()
    ensures
        kind_of_keyword(SdpAttributeType::EndOfCandidates.display_spec()) == Some(SdpAttributeType::EndOfCandidates),
{
    reveal_strlit("End-Of-Candidates");
    reveal_strlit("bundle-only");
    reveal_strlit("candidate");
    reveal_strlit("end-of-candidates");
    lemma_ci_ne_len("End-Of-Candidates"@, "bundle-only"@);
    lemma_ci_ne_len("End-Of-Candidates"@, "candidate"@);
    assert(ci_eq("End-Of-Candidates"@, "end-of-candidates"@)) by {
        assert(to_lower("End-Of-Candidates"@) =~= to_lower("end-of-candidates"@));
    }
}

proof fn rt_extmap()
    ensures
        kind_of_keyword(SdpAttributeType::Extmap.display_spec()) == Some(SdpAttributeType::Extmap),
{
    reveal_strlit("Extmap");
    reveal_strlit("bundle-only");
    reveal_strlit("candidate");
    reveal_strlit("end-of-candidates");
    reveal_strlit("extmap");
    lemma_ci_ne_len("Extmap"@, "bundle-only"@);
    lemma_ci_ne_len("Extmap"@, "candidate"@);
    lemma_ci_ne_len("Extmap"@, "end-of-candidates"@);
    assert(ci_eq("Extmap"@, "extmap"@)) by {
        assert(to_lower("Extmap"@) =~= to_lower("extmap"@));
    }
}

proof fn rt_fingerprint()
    ensures
        kind_of_keyword(SdpAttributeType::Fingerprint.display_spec()) == Some(SdpAttributeType::Fingerprint),
{
    reveal_strlit("Fingerprint");
    reveal_strlit("bundle-only");
    reveal_strlit("candidate");
    reveal_strlit("end-of-candidates");
    reveal_strlit("extmap");
    reveal_strlit("fingerprint");
    lemma_ci_ne_at("Fingerprint"@, "bundle-only"@, 0);
    lemma_ci_ne_len("Fingerprint"@, "candidate"@);
    lemma_ci_ne_len("Fingerprint"@, "end-of-candidates"@);
    lemma_ci_ne_len("Fingerprint"@, "extmap"@);
    assert(ci_eq("Fingerprint"@, "fingerprint"@)) by {
        assert(to_lower("Fingerprint"@) =~= to_lower("fingerprint"@));
    }
}

proof fn rt_fmtp()
    ensures
        kind_of_keyword(SdpAttributeType::Fmtp.display_spec()) == Some(SdpAttributeType::Fmtp),
{
    reveal_strlit("Fmtp");
    reveal_strlit("bundle-only");
    reveal_strlit("candidate");
    reveal_strlit("end-of-candidates");
    reveal_strlit("extmap");
    reveal_strlit("fingerprint");
    reveal_strlit("fmtp");
    lemma_ci_ne_len("Fmtp"@, "bundle-only"@);
    lemma_ci_ne_len("Fmtp"@, "candidate"@);
    lemma_ci_ne_len("Fmtp"@, "end-of-candidates"@);
    lemma_ci_ne_len("Fmtp"@, "extmap"@);
    lemma_ci_ne_len("Fmtp"@, "fingerprint"@);
    assert(ci_eq("Fmtp"@, "fmtp"@)) by {
        assert(to_lower("Fmtp"@) =~= to_lower("fmtp"@));
    }
}

proof fn rt_group()
    ensures
        kind_of_keyword(SdpAttributeType::Group.display_spec()) == Some(SdpAttributeType::Group),
{
    reveal_strlit("Group");
    reveal_strlit("bundle-only");
    reveal_strlit("candidate");
    reveal_strlit("end-of-candidates");
    reveal_strlit("extmap");
    reveal_strlit("fingerprint");
    reveal_strlit("fmtp");
    reveal_strlit("group");
    lemma_ci_ne_len("Group"@, "bundle-only"@);
    lemma_ci_ne_len("Group"@, "candidate"@);
    lemma_ci_ne_len("Group"@, "end-of-candidates"@);
    lemma_ci_ne_len("Group"@, "extmap"@);
    lemma_ci_ne_len("Group"@, "fingerprint"@);
    lemma_ci_ne_len("Group"@, "fmtp"@);
    assert(ci_eq("Group"@, "group"@)) by {
        assert(to_lower("Group"@) =~= to_lower("group"@));
    }
}

proof fn rt_ice_lite()
    ensures
        kind_of_keyword(SdpAttributeType::IceLite.display_spec()) == Some(SdpAttributeType::IceLite),
{
    reveal_strlit("Ice-Lite");
    reveal_strlit("bundle-only");
    reveal_strlit("candidate");
    reveal_strlit("end-of-candidates");
    reveal_strlit("extmap");
    reveal_strlit("fingerprint");
    reveal_strlit("fmtp");
    reveal_strlit("group");
    reveal_strlit("ice-lite");
    lemma_ci_ne_len("Ice-Lite"@, "bundle-only"@);
    lemma_ci_ne_len("Ice-Lite"@, "candidate"@);
    lemma_ci_ne_len("Ice-Lite"@, "end-of-candidates"@);
    lemma_ci_ne_len("Ice-Lite"@, "extmap"@);
    lemma_ci_ne_len("Ice-Lite"@, "fingerprint"@);
    lemma_ci_ne_len("Ice-Lite"@, "fmtp"@);
    lemma_ci_ne_len("Ice-Lite"@, "group"@);
    assert(ci_eq("Ice-Lite"@, "ice-lite"@)) by {
        assert(to_lower("Ice-Lite"@) =~= to_lower("ice-lite"@));
    }
}

proof fn rt_ice_options()
    ensures
        kind_of_keyword(SdpAttributeType::IceOptions.display_spec()) == Some(SdpAttributeType::IceOptions),
{
    reveal_strlit("Ice-Options");
    reveal_strlit("bundle-only");
    reveal_strlit("candidate");
    reveal_strlit("end-of-candidates");
    reveal_strlit("extmap");
    reveal_strlit("fingerprint");
    reveal_strlit("fmtp");
    reveal_strlit("group");
    reveal_strlit("ice-lite");
    reveal_strlit("ice-options");
    lemma_ci_ne_at("Ice-Options"@, "bundle-only"@, 0);
    lemma_ci_ne_len("Ice-Options"@, "candidate"@);
    lemma_ci_ne_len("Ice-Options"@, "end-of-candidates"@);
    lemma_ci_ne_len("Ice-Options"@, "extmap"@);
    lemma_ci_ne_at("Ice-Options"@, "fingerprint"@, 0);
    lemma_ci_ne_len("Ice-Options"@, "fmtp"@);
    lemma_ci_ne_len("Ice-Options"@, "group"@);
    lemma_ci_ne_len("Ice-Options"@, "ice-lite"@);
    assert(ci_eq("Ice-Options"@, "ice-options"@)) by {
        assert(to_lower("Ice-Options"@) =~= to_lower("ice-options"@));
    }
}

proof fn rt_ice_pwd()
    ensures
        kind_of_keyword(SdpAttributeType::IcePwd.display_spec()) == Some(SdpAttributeType::IcePwd),
{
    reveal_strlit("Ice-Pwd");
    reveal_strlit("bundle-only");
    reveal_strlit("candidate");
    reveal_strlit("end-of-candidates");
    reveal_strlit("extmap");
    reveal_strlit("fingerprint");
    reveal_strlit("fmtp");
    reveal_strlit("group");
    reveal_strlit("ice-lite");
    reveal_strlit("ice-options");
    reveal_strlit("ice-pwd");
    lemma_ci_ne_len("Ice-Pwd"@, "bundle-only"@);
    lemma_ci_ne_len("Ice-Pwd"@, "candidate"@);
    lemma_ci_ne_len("Ice-Pwd"@, "end-of-candidates"@);
    lemma_ci_ne_len("Ice-Pwd"@, "extmap"@);
    lemma_ci_ne_len("Ice-Pwd"@, "fingerprint"@);
    lemma_ci_ne_len("Ice-Pwd"@, "fmtp"@);
    lemma_ci_ne_len("Ice-Pwd"@, "group"@);
    lemma_ci_ne_len("Ice-Pwd"@, "ice-lite"@);
    lemma_ci_ne_len("Ice-Pwd"@, "ice-options"@);
    assert(ci_eq("Ice-Pwd"@, "ice-pwd"@)) by {
        assert(to_lower("Ice-Pwd"@) =~= to_lower("ice-pwd"@));
    }
}

proof fn rt_ice_ufrag()
    ensures
        kind_of_keyword(SdpAttributeType::IceUfrag.display_spec()) == Some(SdpAttributeType::IceUfrag),
{
    reveal_strlit("Ice-Ufrag");
    reveal_strlit("bundle-only");
    reveal_strlit("candidate");
    reveal_strlit("end-of-candidates");
    reveal_strlit("extmap");
    reveal_strlit("fingerprint");
    reveal_strlit("fmtp");
    reveal_strlit("group");
    reveal_strlit("ice-lite");
    reveal_strlit("ice-options");
    reveal_strlit("ice-pwd");
    reveal_strlit("ice-ufrag");
    lemma_ci_ne_len("Ice-Ufrag"@, "bundle-only"@);
    lemma_ci_ne_at("Ice-Ufrag"@, "candidate"@, 0);
    lemma_ci_ne_len("Ice-Ufrag"@, "end-of-candidates"@);
    lemma_ci_ne_len("Ice-Ufrag"@, "extmap"@);
    lemma_ci_ne_len("Ice-Ufrag"@, "fingerprint"@);
    lemma_ci_ne_len("Ice-Ufrag"@, "fmtp"@);
    lemma_ci_ne_len("Ice-Ufrag"@, "group"@);
    lemma_ci_ne_len("Ice-Ufrag"@, "ice-lite"@);
    lemma_ci_ne_len("Ice-Ufrag"@, "ice-options"@);
    lemma_ci_ne_len("Ice-Ufrag"@, "ice-pwd"@);
    assert(ci_eq("Ice-Ufrag"@, "ice-ufrag"@)) by {
        assert(to_lower("Ice-Ufrag"@) =~= to_lower("ice-ufrag"@));
    }
}

proof fn rt_inactive()
    ensures
        kind_of_keyword(SdpAttributeType::Inactive.display_spec()) == Some(SdpAttributeType::Inactive),
{
    reveal_strlit("Inactive");
    reveal_strlit("bundle-only");
    reveal_strlit("candidate");
    reveal_strlit("end-of-candidates");
    reveal_strlit("extmap");
    reveal_strlit("fingerprint");
    reveal_strlit("fmtp");
    reveal_strlit("group");
    reveal_strlit("ice-lite");
    reveal_strlit("ice-options");
    reveal_strlit("ice-pwd");
    reveal_strlit("ice-ufrag");
    reveal_strlit("inactive");
    lemma_ci_ne_len("Inactive"@, "bundle-only"@);
    lemma_ci_ne_len("Inactive"@, "candidate"@);
    lemma_ci_ne_len("Inactive"@, "end-of-candidates"@);
    lemma_ci_ne_len("Inactive"@, "extmap"@);
    lemma_ci_ne_len("Inactive"@, "fingerprint"@);
    lemma_ci_ne_len("Inactive"@, "fmtp"@);
    lemma_ci_ne_len("Inactive"@, "group"@);
    lemma_ci_ne_at("Inactive"@, "ice-lite"@, 1);
    lemma_ci_ne_len("Inactive"@, "ice-options"@);
    lemma_ci_ne_len("Inactive"@, "ice-pwd"@);
    lemma_ci_ne_len("Inactive"@, "ice-ufrag"@);
    assert(ci_eq("Inactive"@, "inactive"@)) by {
        assert(to_lower("Inactive"@) =~= to_lower("inactive"@));
    }
}

proof fn rt_mid()
    ensures
        kind_of_keyword(SdpAttributeType::Mid.display_spec()) == Some(SdpAttributeType::Mid),
{
    reveal_strlit("Mid");
    reveal_strlit("bundle-only");
    reveal_strlit("candidate");
    reveal_strlit("end-of-candidates");
    reveal_strlit("extmap");
    reveal_strlit("fingerprint");
    reveal_strlit("fmtp");
    reveal_strlit("group");
    reveal_strlit("ice-lite");
    reveal_strlit("ice-options");
    reveal_strlit("ice-pwd");
    reveal_strlit("ice-ufrag");
    reveal_strlit("inactive");
    reveal_strlit("mid");
    lemma_ci_ne_len("Mid"@, "bundle-only"@);
    lemma_ci_ne_len("Mid"@, "candidate"@);
    lemma_ci_ne_len("Mid"@, "end-of-candidates"@);
    lemma_ci_ne_len("Mid"@, "extmap"@);
    lemma_ci_ne_len("Mid"@, "fingerprint"@);
    lemma_ci_ne_len("Mid"@, "fmtp"@);
    lemma_ci_ne_len("Mid"@, "group"@);
    lemma_ci_ne_len("Mid"@, "ice-lite"@);
    lemma_ci_ne_len("Mid"@, "ice-options"@);
    lemma_ci_ne_len("Mid"@, "ice-pwd"@);
    lemma_ci_ne_len("Mid"@, "ice-ufrag"@);
    lemma_ci_ne_len("Mid"@, "inactive"@);
    assert(ci_eq("Mid"@, "mid"@)) by {
        assert(to_lower("Mid"@) =~= to_lower("mid"@));
    }
}

proof fn rt_msid()
    ensures
        kind_of_keyword(SdpAttributeType::Msid.display_spec()) == Some(SdpAttributeType::Msid),
{
    reveal_strlit("Msid");
    reveal_strlit("bundle-only");
    reveal_strlit("candidate");
    reveal_strlit("end-of-candidates");
    reveal_strlit("extmap");
    reveal_strlit("fingerprint");
    reveal_strlit("fmtp");
    reveal_strlit("group");
    reveal_strlit("ice-lite");
    reveal_strlit("ice-options");
    reveal_strlit("ice-pwd");
    reveal_strlit("ice-ufrag");
    reveal_strlit("inactive");
    reveal_strlit("mid");
    reveal_strlit("msid");
    lemma_ci_ne_len("Msid"@, "bundle-only"@);
    lemma_ci_ne_len("Msid"@, "candidate"@);
    lemma_ci_ne_len("Msid"@, "end-of-candidates"@);
    lemma_ci_ne_len("Msid"@, "extmap"@);
    lemma_ci_ne_len("Msid"@, "fingerprint"@);
    lemma_ci_ne_at("Msid"@, "fmtp"@, 0);
    lemma_ci_ne_len("Msid"@, "group"@);
    lemma_ci_ne_len("Msid"@, "ice-lite"@);
    lemma_ci_ne_len("Msid"@, "ice-options"@);
    lemma_ci_ne_len("Msid"@, "ice-pwd"@);
    lemma_ci_ne_len("Msid"@, "ice-ufrag"@);
    lemma_ci_ne_len("Msid"@, "inactive"@);
    lemma_ci_ne_len("Msid"@, "mid"@);
    assert(ci_eq("Msid"@, "msid"@)) by {
        assert(to_lower("Msid"@) =~= to_lower("msid"@));
    }
}

proof fn rt_msid_semantic()
    ensures
        kind_of_keyword(SdpAttributeType::MsidSemantic.display_spec()) == Some(SdpAttributeType::MsidSemantic),
{
    reveal_strlit("Msid-Semantic");
    reveal_strlit("bundle-only");
    reveal_strlit("candidate");
    reveal_strlit("end-of-candidates");
    reveal_strlit("extmap");
    reveal_strlit("fingerprint");
    reveal_strlit("fmtp");
    reveal_strlit("group");
    reveal_strlit("ice-lite");
    reveal_strlit("ice-options");
    reveal_strlit("ice-pwd");
    reveal_strlit("ice-ufrag");
    reveal_strlit("inactive");
    reveal_strlit("mid");
    reveal_strlit("msid");
    reveal_strlit("msid-semantic");
    lemma_ci_ne_len("Msid-Semantic"@, "bundle-only"@);
    lemma_ci_ne_len("Msid-Semantic"@, "candidate"@);
    lemma_ci_ne_len("Msid-Semantic"@, "end-of-candidates"@);
    lemma_ci_ne_len("Msid-Semantic"@, "extmap"@);
    lemma_ci_ne_len("Msid-Semantic"@, "fingerprint"@);
    lemma_ci_ne_len("Msid-Semantic"@, "fmtp"@);
    lemma_ci_ne_len("Msid-Semantic"@, "group"@);
    lemma_ci_ne_len("Msid-Semantic"@, "ice-lite"@);
    lemma_ci_ne_len("Msid-Semantic"@, "ice-options"@);
    lemma_ci_ne_len("Msid-Semantic"@, "ice-pwd"@);
    lemma_ci_ne_len("Msid-Semantic"@, "ice-ufrag"@);
    lemma_ci_ne_len("Msid-Semantic"@, "inactive"@);
    lemma_ci_ne_len("Msid-Semantic"@, "mid"@);
    lemma_ci_ne_len("Msid-Semantic"@, "msid"@);
    assert(ci_eq("Msid-Semantic"@, "msid-semantic"@)) by {
        assert(to_lower("Msid-Semantic"@) =~= to_lower("msid-semantic"@));
    }
}

proof fn rt_rid()
    ensures
        kind_of_keyword(SdpAttributeType::Rid.display_spec()) == Some(SdpAttributeType::Rid),
{
    reveal_strlit("Rid");
    reveal_strlit("bundle-only");
    reveal_strlit("candidate");
    reveal_strlit("end-of-candidates");
    reveal_strlit("extmap");
    reveal_strlit("fingerprint");
    reveal_strlit("fmtp");
    reveal_strlit("group");
    reveal_strlit("ice-lite");
    reveal_strlit("ice-options");
    reveal_strlit("ice-pwd");
    reveal_strlit("ice-ufrag");
    reveal_strlit("inactive");
    reveal_strlit("mid");
    reveal_strlit("msid");
    reveal_strlit("msid-semantic");
    reveal_strlit("rid");
    lemma_ci_ne_len("Rid"@, "bundle-only"@);
    lemma_ci_ne_len("Rid"@, "candidate"@);
    lemma_ci_ne_len("Rid"@, "end-of-candidates"@);
    lemma_ci_ne_len("Rid"@, "extmap"@);
    lemma_ci_ne_len("Rid"@, "fingerprint"@);
    lemma_ci_ne_len("Rid"@, "fmtp"@);
    lemma_ci_ne_len("Rid"@, "group"@);
    lemma_ci_ne_len("Rid"@, "ice-lite"@);
    lemma_ci_ne_len("Rid"@, "ice-options"@);
    lemma_ci_ne_len("Rid"@, "ice-pwd"@);
    lemma_ci_ne_len("Rid"@, "ice-ufrag"@);
    lemma_ci_ne_len("Rid"@, "inactive"@);
    lemma_ci_ne_at("Rid"@, "mid"@, 0);
    lemma_ci_ne_len("Rid"@, "msid"@);
    lemma_ci_ne_len("Rid"@, "msid-semantic"@);
    assert(ci_eq("Rid"@, "rid"@)) by {
        assert(to_lower("Rid"@) =~= to_lower("rid"@));
    }
}

proof fn rt_recvonly()
    ensures
        kind_of_keyword(SdpAttributeType::Recvonly.display_spec()) == Some(SdpAttributeType::Recvonly),
{
    reveal_strlit("Recvonly");
    reveal_strlit("bundle-only");
    reveal_strlit("candidate");
    reveal_strlit("end-of-candidates");
    reveal_strlit("extmap");
    reveal_strlit("fingerprint");
    reveal_strlit("fmtp");
    reveal_strlit("group");
    reveal_strlit("ice-lite");
    reveal_strlit("ice-options");
    reveal_strlit("ice-pwd");
    reveal_strlit("ice-ufrag");
    reveal_strlit("inactive");
    reveal_strlit("mid");
    reveal_strlit("msid");
    reveal_strlit("msid-semantic");
    reveal_strlit("rid");
    reveal_strlit("recvonly");
    lemma_ci_ne_len("Recvonly"@, "bundle-only"@);
    lemma_ci_ne_len("Recvonly"@, "candidate"@);
    lemma_ci_ne_len("Recvonly"@, "end-of-candidates"@);
    lemma_ci_ne_len("Recvonly"@, "extmap"@);
    lemma_ci_ne_len("Recvonly"@, "fingerprint"@);
    lemma_ci_ne_len("Recvonly"@, "fmtp"@);
    lemma_ci_ne_len("Recvonly"@, "group"@);
    lemma_ci_ne_at("Recvonly"@, "ice-lite"@, 0);
    lemma_ci_ne_len("Recvonly"@, "ice-options"@);
    lemma_ci_ne_len("Recvonly"@, "ice-pwd"@);
    lemma_ci_ne_len("Recvonly"@, "ice-ufrag"@);
    lemma_ci_ne_at("Recvonly"@, "inactive"@, 0);
    lemma_ci_ne_len("Recvonly"@, "mid"@);
    lemma_ci_ne_len("Recvonly"@, "msid"@);
    lemma_ci_ne_len("Recvonly"@, "msid-semantic"@);
    lemma_ci_ne_len("Recvonly"@, "rid"@);
    assert(ci_eq("Recvonly"@, "recvonly"@)) by {
        assert(to_lower("Recvonly"@) =~= to_lower("recvonly"@));
    }
}

proof fn rt_rtcp()
    ensures
        kind_of_keyword(SdpAttributeType::Rtcp.display_spec()) == Some(SdpAttributeType::Rtcp),
{
    reveal_strlit("Rtcp");
    reveal_strlit("bundle-only");
    reveal_strlit("candidate");
    reveal_strlit("end-of-candidates");
    reveal_strlit("extmap");
    reveal_strlit("fingerprint");
    reveal_strlit("fmtp");
    reveal_strlit("group");
    reveal_strlit("ice-lite");
    reveal_strlit("ice-options");
    reveal_strlit("ice-pwd");
    reveal_strlit("ice-ufrag");
    reveal_strlit("inactive");
    reveal_strlit("mid");
    reveal_strlit("msid");
    reveal_strlit("msid-semantic");
    reveal_strlit("rid");
    reveal_strlit("recvonly");
    reveal_strlit("rtcp");
    lemma_ci_ne_len("Rtcp"@, "bundle-only"@);
    lemma_ci_ne_len("Rtcp"@, "candidate"@);
    lemma_ci_ne_len("Rtcp"@, "end-of-candidates"@);
    lemma_ci_ne_len("Rtcp"@, "extmap"@);
    lemma_ci_ne_len("Rtcp"@, "fingerprint"@);
    lemma_ci_ne_at("Rtcp"@, "fmtp"@, 0);
    lemma_ci_ne_len("Rtcp"@, "group"@);
    lemma_ci_ne_len("Rtcp"@, "ice-lite"@);
    lemma_ci_ne_len("Rtcp"@, "ice-options"@);
    lemma_ci_ne_len("Rtcp"@, "ice-pwd"@);
    lemma_ci_ne_len("Rtcp"@, "ice-ufrag"@);
    lemma_ci_ne_len("Rtcp"@, "inactive"@);
    lemma_ci_ne_len("Rtcp"@, "mid"@);
    lemma_ci_ne_at("Rtcp"@, "msid"@, 0);
    lemma_ci_ne_len("Rtcp"@, "msid-semantic"@);
    lemma_ci_ne_len("Rtcp"@, "rid"@);
    lemma_ci_ne_len("Rtcp"@, "recvonly"@);
    assert(ci_eq("Rtcp"@, "rtcp"@)) by {
        assert(to_lower("Rtcp"@) =~= to_lower("rtcp"@));
    }
}

proof fn rt_rtcp_fb()
    ensures
        kind_of_keyword(SdpAttributeType::RtcpFb.display_spec()) == Some(SdpAttributeType::RtcpFb),
{
    reveal_strlit("Rtcp-Fb");
    reveal_strlit("bundle-only");
    reveal_strlit("candidate");
    reveal_strlit("end-of-candidates");
    reveal_strlit("extmap");
    reveal_strlit("fingerprint");
    reveal_strlit("fmtp");
    reveal_strlit("group");
    reveal_strlit("ice-lite");
    reveal_strlit("ice-options");
    reveal_strlit("ice-pwd");
    reveal_strlit("ice-ufrag");
    reveal_strlit("inactive");
    reveal_strlit("mid");
    reveal_strlit("msid");
    reveal_strlit("msid-semantic");
    reveal_strlit("rid");
    reveal_strlit("recvonly");
    reveal_strlit("rtcp");
    reveal_strlit("rtcp-fb");
    lemma_ci_ne_len("Rtcp-Fb"@, "bundle-only"@);
    lemma_ci_ne_len("Rtcp-Fb"@, "candidate"@);
    lemma_ci_ne_len("Rtcp-Fb"@, "end-of-candidates"@);
    lemma_ci_ne_len("Rtcp-Fb"@, "extmap"@);
    lemma_ci_ne_len("Rtcp-Fb"@, "fingerprint"@);
    lemma_ci_ne_len("Rtcp-Fb"@, "fmtp"@);
    lemma_ci_ne_len("Rtcp-Fb"@, "group"@);
    lemma_ci_ne_len("Rtcp-Fb"@, "ice-lite"@);
    lemma_ci_ne_len("Rtcp-Fb"@, "ice-options"@);
    lemma_ci_ne_at("Rtcp-Fb"@, "ice-pwd"@, 0);
    lemma_ci_ne_len("Rtcp-Fb"@, "ice-ufrag"@);
    lemma_ci_ne_len("Rtcp-Fb"@, "inactive"@);
    lemma_ci_ne_len("Rtcp-Fb"@, "mid"@);
    lemma_ci_ne_len("Rtcp-Fb"@, "msid"@);
    lemma_ci_ne_len("Rtcp-Fb"@, "msid-semantic"@);
    lemma_ci_ne_len("Rtcp-Fb"@, "rid"@);
    lemma_ci_ne_len("Rtcp-Fb"@, "recvonly"@);
    lemma_ci_ne_len("Rtcp-Fb"@, "rtcp"@);
    assert(ci_eq("Rtcp-Fb"@, "rtcp-fb"@)) by {
        assert(to_lower("Rtcp-Fb"@) =~= to_lower("rtcp-fb"@));
    }
}

proof fn rt_rtcp_mux()
    ensures
        kind_of_keyword(SdpAttributeType::RtcpMux.display_spec()) == Some(SdpAttributeType::RtcpMux),
{
    reveal_strlit("Rtcp-Mux");
    reveal_strlit("bundle-only");
    reveal_strlit("candidate");
    reveal_strlit("end-of-candidates");
    reveal_strlit("extmap");
    reveal_strlit("fingerprint");
    reveal_strlit("fmtp");
    reveal_strlit("group");
    reveal_strlit("ice-lite");
    reveal_strlit("ice-options");
    reveal_strlit("ice-pwd");
    reveal_strlit("ice-ufrag");
    reveal_strlit("inactive");
    reveal_strlit("mid");
    reveal_strlit("msid");
    reveal_strlit("msid-semantic");
    reveal_strlit("rid");
    reveal_strlit("recvonly");
    reveal_strlit("rtcp");
    reveal_strlit("rtcp-fb");
    reveal_strlit("rtcp-mux");
    lemma_ci_ne_len("Rtcp-Mux"@, "bundle-only"@);
    lemma_ci_ne_len("Rtcp-Mux"@, "candidate"@);
    lemma_ci_ne_len("Rtcp-Mux"@, "end-of-candidates"@);
    lemma_ci_ne_len("Rtcp-Mux"@, "extmap"@);
    lemma_ci_ne_len("Rtcp-Mux"@, "fingerprint"@);
    lemma_ci_ne_len("Rtcp-Mux"@, "fmtp"@);
    lemma_ci_ne_len("Rtcp-Mux"@, "group"@);
    lemma_ci_ne_at("Rtcp-Mux"@, "ice-lite"@, 0);
    lemma_ci_ne_len("Rtcp-Mux"@, "ice-options"@);
    lemma_ci_ne_len("Rtcp-Mux"@, "ice-pwd"@);
    lemma_ci_ne_len("Rtcp-Mux"@, "ice-ufrag"@);
    lemma_ci_ne_at("Rtcp-Mux"@, "inactive"@, 0);
    lemma_ci_ne_len("Rtcp-Mux"@, "mid"@);
    lemma_ci_ne_len("Rtcp-Mux"@, "msid"@);
    lemma_ci_ne_len("Rtcp-Mux"@, "msid-semantic"@);
    lemma_ci_ne_len("Rtcp-Mux"@, "rid"@);
    lemma_ci_ne_at("Rtcp-Mux"@, "recvonly"@, 1);
    lemma_ci_ne_len("Rtcp-Mux"@, "rtcp"@);
    lemma_ci_ne_len("Rtcp-Mux"@, "rtcp-fb"@);
    assert(ci_eq("Rtcp-Mux"@, "rtcp-mux"@)) by {
        assert(to_lower("Rtcp-Mux"@) =~= to_lower("rtcp-mux"@));
    }
}

proof fn rt_rtcp_rsize()
    ensures
        kind_of_keyword(SdpAttributeType::RtcpRsize.display_spec()) == Some(SdpAttributeType::RtcpRsize),
{
    reveal_strlit("Rtcp-Rsize");
    reveal_strlit("bundle-only");
    reveal_strlit("candidate");
    reveal_strlit("end-of-candidates");
    reveal_strlit("extmap");
    reveal_strlit("fingerprint");
    reveal_strlit("fmtp");
    reveal_strlit("group");
    reveal_strlit("ice-lite");
    reveal_strlit("ice-options");
    reveal_strlit("ice-pwd");
    reveal_strlit("ice-ufrag");
    reveal_strlit("inactive");
    reveal_strlit("mid");
    reveal_strlit("msid");
    reveal_strlit("msid-semantic");
    reveal_strlit("rid");
    reveal_strlit("recvonly");
    reveal_strlit("rtcp");
    reveal_strlit("rtcp-fb");
    reveal_strlit("rtcp-mux");
    reveal_strlit("rtcp-rsize");
    lemma_ci_ne_len("Rtcp-Rsize"@, "bundle-only"@);
    lemma_ci_ne_len("Rtcp-Rsize"@, "candidate"@);
    lemma_ci_ne_len("Rtcp-Rsize"@, "end-of-candidates"@);
    lemma_ci_ne_len("Rtcp-Rsize"@, "extmap"@);
    lemma_ci_ne_len("Rtcp-Rsize"@, "fingerprint"@);
    lemma_ci_ne_len("Rtcp-Rsize"@, "fmtp"@);
    lemma_ci_ne_len("Rtcp-Rsize"@, "group"@);
    lemma_ci_ne_len("Rtcp-Rsize"@, "ice-lite"@);
    lemma_ci_ne_len("Rtcp-Rsize"@, "ice-options"@);
    lemma_ci_ne_len("Rtcp-Rsize"@, "ice-pwd"@);
    lemma_ci_ne_len("Rtcp-Rsize"@, "ice-ufrag"@);
    lemma_ci_ne_len("Rtcp-Rsize"@, "inactive"@);
    lemma_ci_ne_len("Rtcp-Rsize"@, "mid"@);
    lemma_ci_ne_len("Rtcp-Rsize"@, "msid"@);
    lemma_ci_ne_len("Rtcp-Rsize"@, "msid-semantic"@);
    lemma_ci_ne_len("Rtcp-Rsize"@, "rid"@);
    lemma_ci_ne_len("Rtcp-Rsize"@, "recvonly"@);
    lemma_ci_ne_len("Rtcp-Rsize"@, "rtcp"@);
    lemma_ci_ne_len("Rtcp-Rsize"@, "rtcp-fb"@);
    lemma_ci_ne_len("Rtcp-Rsize"@, "rtcp-mux"@);
    assert(ci_eq("Rtcp-Rsize"@, "rtcp-rsize"@)) by {
        assert(to_lower("Rtcp-Rsize"@) =~= to_lower("rtcp-rsize"@));
    }
}

proof fn rt_rtpmap()
    ensures
        kind_of_keyword(SdpAttributeType::Rtpmap.display_spec()) == Some(SdpAttributeType::Rtpmap),
{
    reveal_strlit("Rtpmap");
    reveal_strlit("bundle-only");
    reveal_strlit("candidate");
    reveal_strlit("end-of-candidates");
    reveal_strlit("extmap");
    reveal_strlit("fingerprint");
    reveal_strlit("fmtp");
    reveal_strlit("group");
    reveal_strlit("ice-lite");
    reveal_strlit("ice-options");
    reveal_strlit("ice-pwd");
    reveal_strlit("ice-ufrag");
    reveal_strlit("inactive");
    reveal_strlit("mid");
    reveal_strlit("msid");
    reveal_strlit("msid-semantic");
    reveal_strlit("rid");
    reveal_strlit("recvonly");
    reveal_strlit("rtcp");
    reveal_strlit("rtcp-fb");
    reveal_strlit("rtcp-mux");
    reveal_strlit("rtcp-rsize");
    reveal_strlit("rtpmap");
    lemma_ci_ne_len("Rtpmap"@, "bundle-only"@);
    lemma_ci_ne_len("Rtpmap"@, "candidate"@);
    lemma_ci_ne_len("Rtpmap"@, "end-of-candidates"@);
    lemma_ci_ne_at("Rtpmap"@, "extmap"@, 0);
    lemma_ci_ne_len("Rtpmap"@, "fingerprint"@);
    lemma_ci_ne_len("Rtpmap"@, "fmtp"@);
    lemma_ci_ne_len("Rtpmap"@, "group"@);
    lemma_ci_ne_len("Rtpmap"@, "ice-lite"@);
    lemma_ci_ne_len("Rtpmap"@, "ice-options"@);
    lemma_ci_ne_len("Rtpmap"@, "ice-pwd"@);
    lemma_ci_ne_len("Rtpmap"@, "ice-ufrag"@);
    lemma_ci_ne_len("Rtpmap"@, "inactive"@);
    lemma_ci_ne_len("Rtpmap"@, "mid"@);
    lemma_ci_ne_len("Rtpmap"@, "msid"@);
    lemma_ci_ne_len("Rtpmap"@, "msid-semantic"@);
    lemma_ci_ne_len("Rtpmap"@, "rid"@);
    lemma_ci_ne_len("Rtpmap"@, "recvonly"@);
    lemma_ci_ne_len("Rtpmap"@, "rtcp"@);
    lemma_ci_ne_len("Rtpmap"@, "rtcp-fb"@);
    lemma_ci_ne_len("Rtpmap"@, "rtcp-mux"@);
    lemma_ci_ne_len("Rtpmap"@, "rtcp-rsize"@);
    assert(ci_eq("Rtpmap"@, "rtpmap"@)) by {
        assert(to_lower("Rtpmap"@) =~= to_lower("rtpmap"@));
    }
}

proof fn rt_sctpmap()
    ensures
        kind_of_keyword(SdpAttributeType::Sctpmap.display_spec()) == Some(SdpAttributeType::Sctpmap),
{
    reveal_strlit("Sctpmap");
    reveal_strlit("bundle-only");
    reveal_strlit("candidate");
    reveal_strlit("end-of-candidates");
    reveal_strlit("extmap");
    reveal_strlit("fingerprint");
    reveal_strlit("fmtp");
    reveal_strlit("group");
    reveal_strlit("ice-lite");
    reveal_strlit("ice-options");
    reveal_strlit("ice-pwd");
    reveal_strlit("ice-ufrag");
    reveal_strlit("inactive");
    reveal_strlit("mid");
    reveal_strlit("msid");
    reveal_strlit("msid-semantic");
    reveal_strlit("rid");
    reveal_strlit("recvonly");
    reveal_strlit("rtcp");
    reveal_strlit("rtcp-fb");
    reveal_strlit("rtcp-mux");
    reveal_strlit("rtcp-rsize");
    reveal_strlit("rtpmap");
    reveal_strlit("sctpmap");
    lemma_ci_ne_len("Sctpmap"@, "bundle-only"@);
    lemma_ci_ne_len("Sctpmap"@, "candidate"@);
    lemma_ci_ne_len("Sctpmap"@, "end-of-candidates"@);
    lemma_ci_ne_len("Sctpmap"@, "extmap"@);
    lemma_ci_ne_len("Sctpmap"@, "fingerprint"@);
    lemma_ci_ne_len("Sctpmap"@, "fmtp"@);
    lemma_ci_ne_len("Sctpmap"@, "group"@);
    lemma_ci_ne_len("Sctpmap"@, "ice-lite"@);
    lemma_ci_ne_len("Sctpmap"@, "ice-options"@);
    lemma_ci_ne_at("Sctpmap"@, "ice-pwd"@, 0);
    lemma_ci_ne_len("Sctpmap"@, "ice-ufrag"@);
    lemma_ci_ne_len("Sctpmap"@, "inactive"@);
    lemma_ci_ne_len("Sctpmap"@, "mid"@);
    lemma_ci_ne_len("Sctpmap"@, "msid"@);
    lemma_ci_ne_len("Sctpmap"@, "msid-semantic"@);
    lemma_ci_ne_len("Sctpmap"@, "rid"@);
    lemma_ci_ne_len("Sctpmap"@, "recvonly"@);
    lemma_ci_ne_len("Sctpmap"@, "rtcp"@);
    lemma_ci_ne_at("Sctpmap"@, "rtcp-fb"@, 0);
    lemma_ci_ne_len("Sctpmap"@, "rtcp-mux"@);
    lemma_ci_ne_len("Sctpmap"@, "rtcp-rsize"@);
    lemma_ci_ne_len("Sctpmap"@, "rtpmap"@);
    assert(ci_eq("Sctpmap"@, "sctpmap"@)) by {
        assert(to_lower("Sctpmap"@) =~= to_lower("sctpmap"@));
    }
}

proof fn rt_sctp_port()
    ensures
        kind_of_keyword(SdpAttributeType::SctpPort.display_spec()) == Some(SdpAttributeType::SctpPort),
{
    reveal_strlit("Sctp-Port");
    reveal_strlit("bundle-only");
    reveal_strlit("candidate");
    reveal_strlit("end-of-candidates");
    reveal_strlit("extmap");
    reveal_strlit("fingerprint");
    reveal_strlit("fmtp");
    reveal_strlit("group");
    reveal_strlit("ice-lite");
    reveal_strlit("ice-options");
    reveal_strlit("ice-pwd");
    reveal_strlit("ice-ufrag");
    reveal_strlit("inactive");
    reveal_strlit("mid");
    reveal_strlit("msid");
    reveal_strlit("msid-semantic");
    reveal_strlit("rid");
    reveal_strlit("recvonly");
    reveal_strlit("rtcp");
    reveal_strlit("rtcp-fb");
    reveal_strlit("rtcp-mux");
    reveal_strlit("rtcp-rsize");
    reveal_strlit("rtpmap");
    reveal_strlit("sctpmap");
    reveal_strlit("sctp-port");
    lemma_ci_ne_len("Sctp-Port"@, "bundle-only"@);
    lemma_ci_ne_at("Sctp-Port"@, "candidate"@, 0);
    lemma_ci_ne_len("Sctp-Port"@, "end-of-candidates"@);
    lemma_ci_ne_len("Sctp-Port"@, "extmap"@);
    lemma_ci_ne_len("Sctp-Port"@, "fingerprint"@);
    lemma_ci_ne_len("Sctp-Port"@, "fmtp"@);
    lemma_ci_ne_len("Sctp-Port"@, "group"@);
    lemma_ci_ne_len("Sctp-Port"@, "ice-lite"@);
    lemma_ci_ne_len("Sctp-Port"@, "ice-options"@);
    lemma_ci_ne_len("Sctp-Port"@, "ice-pwd"@);
    lemma_ci_ne_at("Sctp-Port"@, "ice-ufrag"@, 0);
    lemma_ci_ne_len("Sctp-Port"@, "inactive"@);
    lemma_ci_ne_len("Sctp-Port"@, "mid"@);
    lemma_ci_ne_len("Sctp-Port"@, "msid"@);
    lemma_ci_ne_len("Sctp-Port"@, "msid-semantic"@);
    lemma_ci_ne_len("Sctp-Port"@, "rid"@);
    lemma_ci_ne_len("Sctp-Port"@, "recvonly"@);
    lemma_ci_ne_len("Sctp-Port"@, "rtcp"@);
    lemma_ci_ne_len("Sctp-Port"@, "rtcp-fb"@);
    lemma_ci_ne_len("Sctp-Port"@, "rtcp-mux"@);
    lemma_ci_ne_len("Sctp-Port"@, "rtcp-rsize"@);
    lemma_ci_ne_len("Sctp-Port"@, "rtpmap"@);
    lemma_ci_ne_len("Sctp-Port"@, "sctpmap"@);
    assert(ci_eq("Sctp-Port"@, "sctp-port"@)) by {
        assert(to_lower("Sctp-Port"@) =~= to_lower("sctp-port"@));
    }
}

proof fn rt_sendonly()
    ensures
        kind_of_keyword(SdpAttributeType::Sendonly.display_spec()) == Some(SdpAttributeType::Sendonly),
{
    reveal_strlit("Sendonly");
    reveal_strlit("bundle-only");
    reveal_strlit("candidate");
    reveal_strlit("end-of-candidates");
    reveal_strlit("extmap");
    reveal_strlit("fingerprint");
    reveal_strlit("fmtp");
    reveal_strlit("group");
    reveal_strlit("ice-lite");
    reveal_strlit("ice-options");
    reveal_strlit("ice-pwd");
    reveal_strlit("ice-ufrag");
    reveal_strlit("inactive");
    reveal_strlit("mid");
    reveal_strlit("msid");
    reveal_strlit("msid-semantic");
    reveal_strlit("rid");
    reveal_strlit("recvonly");
    reveal_strlit("rtcp");
    reveal_strlit("rtcp-fb");
    reveal_strlit("rtcp-mux");
    reveal_strlit("rtcp-rsize");
    reveal_strlit("rtpmap");
    reveal_strlit("sctpmap");
    reveal_strlit("sctp-port");
    reveal_strlit("sendonly");
    lemma_ci_ne_len("Sendonly"@, "bundle-only"@);
    lemma_ci_ne_len("Sendonly"@, "candidate"@);
    lemma_ci_ne_len("Sendonly"@, "end-of-candidates"@);
    lemma_ci_ne_len("Sendonly"@, "extmap"@);
    lemma_ci_ne_len("Sendonly"@, "fingerprint"@);
    lemma_ci_ne_len("Sendonly"@, "fmtp"@);
    lemma_ci_ne_len("Sendonly"@, "group"@);
    lemma_ci_ne_at("Sendonly"@, "ice-lite"@, 0);
    lemma_ci_ne_len("Sendonly"@, "ice-options"@);
    lemma_ci_ne_len("Sendonly"@, "ice-pwd"@);
    lemma_ci_ne_len("Sendonly"@, "ice-ufrag"@);
    lemma_ci_ne_at("Sendonly"@, "inactive"@, 0);
    lemma_ci_ne_len("Sendonly"@, "mid"@);
    lemma_ci_ne_len("Sendonly"@, "msid"@);
    lemma_ci_ne_len("Sendonly"@, "msid-semantic"@);
    lemma_ci_ne_len("Sendonly"@, "rid"@);
    lemma_ci_ne_at("Sendonly"@, "recvonly"@, 0);
    lemma_ci_ne_len("Sendonly"@, "rtcp"@);
    lemma_ci_ne_len("Sendonly"@, "rtcp-fb"@);
    lemma_ci_ne_at("Sendonly"@, "rtcp-mux"@, 0);
    lemma_ci_ne_len("Sendonly"@, "rtcp-rsize"@);
    lemma_ci_ne_len("Sendonly"@, "rtpmap"@);
    lemma_ci_ne_len("Sendonly"@, "sctpmap"@);
    lemma_ci_ne_len("Sendonly"@, "sctp-port"@);
    assert(ci_eq("Sendonly"@, "sendonly"@)) by {
        assert(to_lower("Sendonly"@) =~= to_lower("sendonly"@));
    }
}

proof fn rt_sendrecv()
    ensures
        kind_of_keyword(SdpAttributeType::Sendrecv.display_spec()) == Some(SdpAttributeType::Sendrecv),
{
    reveal_strlit("Sendrecv");
    reveal_strlit("bundle-only");
    reveal_strlit("candidate");
    reveal_strlit("end-of-candidates");
    reveal_strlit("extmap");
    reveal_strlit("fingerprint");
    reveal_strlit("fmtp");
    reveal_strlit("group");
    reveal_strlit("ice-lite");
    reveal_strlit("ice-options");
    reveal_strlit("ice-pwd");
    reveal_strlit("ice-ufrag");
    reveal_strlit("inactive");
    reveal_strlit("mid");
    reveal_strlit("msid");
    reveal_strlit("msid-semantic");
    reveal_strlit("rid");
    reveal_strlit("recvonly");
    reveal_strlit("rtcp");
    reveal_strlit("rtcp-fb");
    reveal_strlit("rtcp-mux");
    reveal_strlit("rtcp-rsize");
    reveal_strlit("rtpmap");
    reveal_strlit("sctpmap");
    reveal_strlit("sctp-port");
    reveal_strlit("sendonly");
    reveal_strlit("sendrecv");
    lemma_ci_ne_len("Sendrecv"@, "bundle-only"@);
    lemma_ci_ne_len("Sendrecv"@, "candidate"@);
    lemma_ci_ne_len("Sendrecv"@, "end-of-candidates"@);
    lemma_ci_ne_len("Sendrecv"@, "extmap"@);
    lemma_ci_ne_len("Sendrecv"@, "fingerprint"@);
    lemma_ci_ne_len("Sendrecv"@, "fmtp"@);
    lemma_ci_ne_len("Sendrecv"@, "group"@);
    lemma_ci_ne_at("Sendrecv"@, "ice-lite"@, 0);
    lemma_ci_ne_len("Sendrecv"@, "ice-options"@);
    lemma_ci_ne_len("Sendrecv"@, "ice-pwd"@);
    lemma_ci_ne_len("Sendrecv"@, "ice-ufrag"@);
    lemma_ci_ne_at("Sendrecv"@, "inactive"@, 0);
    lemma_ci_ne_len("Sendrecv"@, "mid"@);
    lemma_ci_ne_len("Sendrecv"@, "msid"@);
    lemma_ci_ne_len("Sendrecv"@, "msid-semantic"@);
    lemma_ci_ne_len("Sendrecv"@, "rid"@);
    lemma_ci_ne_at("Sendrecv"@, "recvonly"@, 0);
    lemma_ci_ne_len("Sendrecv"@, "rtcp"@);
    lemma_ci_ne_len("Sendrecv"@, "rtcp-fb"@);
    lemma_ci_ne_at("Sendrecv"@, "rtcp-mux"@, 0);
    lemma_ci_ne_len("Sendrecv"@, "rtcp-rsize"@);
    lemma_ci_ne_len("Sendrecv"@, "rtpmap"@);
    lemma_ci_ne_len("Sendrecv"@, "sctpmap"@);
    lemma_ci_ne_len("Sendrecv"@, "sctp-port"@);
    lemma_ci_ne_at("Sendrecv"@, "sendonly"@, 4);
    assert(ci_eq("Sendrecv"@, "sendrecv"@)) by {
        assert(to_lower("Sendrecv"@) =~= to_lower("sendrecv"@));
    }
}

proof fn rt_setup()
    ensures
        kind_of_keyword(SdpAttributeType::Setup.display_spec()) == Some(SdpAttributeType::Setup),
{
    reveal_strlit("Setup");
    reveal_strlit("bundle-only");
    reveal_strlit("candidate");
    reveal_strlit("end-of-candidates");
    reveal_strlit("extmap");
    reveal_strlit("fingerprint");
    reveal_strlit("fmtp");
    reveal_strlit("group");
    reveal_strlit("ice-lite");
    reveal_strlit("ice-options");
    reveal_strlit("ice-pwd");
    reveal_strlit("ice-ufrag");
    reveal_strlit("inactive");
    reveal_strlit("mid");
    reveal_strlit("msid");
    reveal_strlit("msid-semantic");
    reveal_strlit("rid");
    reveal_strlit("recvonly");
    reveal_strlit("rtcp");
    reveal_strlit("rtcp-fb");
    reveal_strlit("rtcp-mux");
    reveal_strlit("rtcp-rsize");
    reveal_strlit("rtpmap");
    reveal_strlit("sctpmap");
    reveal_strlit("sctp-port");
    reveal_strlit("sendonly");
    reveal_strlit("sendrecv");
    reveal_strlit("setup");
    lemma_ci_ne_len("Setup"@, "bundle-only"@);
    lemma_ci_ne_len("Setup"@, "candidate"@);
    lemma_ci_ne_len("Setup"@, "end-of-candidates"@);
    lemma_ci_ne_len("Setup"@, "extmap"@);
    lemma_ci_ne_len("Setup"@, "fingerprint"@);
    lemma_ci_ne_len("Setup"@, "fmtp"@);
    lemma_ci_ne_at("Setup"@, "group"@, 0);
    lemma_ci_ne_len("Setup"@, "ice-lite"@);
    lemma_ci_ne_len("Setup"@, "ice-options"@);
    lemma_ci_ne_len("Setup"@, "ice-pwd"@);
    lemma_ci_ne_len("Setup"@, "ice-ufrag"@);
    lemma_ci_ne_len("Setup"@, "inactive"@);
    lemma_ci_ne_len("Setup"@, "mid"@);
    lemma_ci_ne_len("Setup"@, "msid"@);
    lemma_ci_ne_len("Setup"@, "msid-semantic"@);
    lemma_ci_ne_len("Setup"@, "rid"@);
    lemma_ci_ne_len("Setup"@, "recvonly"@);
    lemma_ci_ne_len("Setup"@, "rtcp"@);
    lemma_ci_ne_len("Setup"@, "rtcp-fb"@);
    lemma_ci_ne_len("Setup"@, "rtcp-mux"@);
    lemma_ci_ne_len("Setup"@, "rtcp-rsize"@);
    lemma_ci_ne_len("Setup"@, "rtpmap"@);
    lemma_ci_ne_len("Setup"@, "sctpmap"@);
    lemma_ci_ne_len("Setup"@, "sctp-port"@);
    lemma_ci_ne_len("Setup"@, "sendonly"@);
    lemma_ci_ne_len("Setup"@, "sendrecv"@);
    assert(ci_eq("Setup"@, "setup"@)) by {
        assert(to_lower("Setup"@) =~= to_lower("setup"@));
    }
}

proof fn rt_simulcast()
    ensures
        kind_of_keyword(SdpAttributeType::Simulcast.display_spec()) == Some(SdpAttributeType::Simulcast),
{
    reveal_strlit("Simulcast");
    reveal_strlit("bundle-only");
    reveal_strlit("candidate");
    reveal_strlit("end-of-candidates");
    reveal_strlit("extmap");
    reveal_strlit("fingerprint");
    reveal_strlit("fmtp");
    reveal_strlit("group");
    reveal_strlit("ice-lite");
    reveal_strlit("ice-options");
    reveal_strlit("ice-pwd");
    reveal_strlit("ice-ufrag");
    reveal_strlit("inactive");
    reveal_strlit("mid");
    reveal_strlit("msid");
    reveal_strlit("msid-semantic");
    reveal_strlit("rid");
    reveal_strlit("recvonly");
    reveal_strlit("rtcp");
    reveal_strlit("rtcp-fb");
    reveal_strlit("rtcp-mux");
    reveal_strlit("rtcp-rsize");
    reveal_strlit("rtpmap");
    reveal_strlit("sctpmap");
    reveal_strlit("sctp-port");
    reveal_strlit("sendonly");
    reveal_strlit("sendrecv");
    reveal_strlit("setup");
    reveal_strlit("simulcast");
    lemma_ci_ne_len("Simulcast"@, "bundle-only"@);
    lemma_ci_ne_at("Simulcast"@, "candidate"@, 0);
    lemma_ci_ne_len("Simulcast"@, "end-of-candidates"@);
    lemma_ci_ne_len("Simulcast"@, "extmap"@);
    lemma_ci_ne_len("Simulcast"@, "fingerprint"@);
    lemma_ci_ne_len("Simulcast"@, "fmtp"@);
    lemma_ci_ne_len("Simulcast"@, "group"@);
    lemma_ci_ne_len("Simulcast"@, "ice-lite"@);
    lemma_ci_ne_len("Simulcast"@, "ice-options"@);
    lemma_ci_ne_len("Simulcast"@, "ice-pwd"@);
    lemma_ci_ne_at("Simulcast"@, "ice-ufrag"@, 0);
    lemma_ci_ne_len("Simulcast"@, "inactive"@);
    lemma_ci_ne_len("Simulcast"@, "mid"@);
    lemma_ci_ne_len("Simulcast"@, "msid"@);
    lemma_ci_ne_len("Simulcast"@, "msid-semantic"@);
    lemma_ci_ne_len("Simulcast"@, "rid"@);
    lemma_ci_ne_len("Simulcast"@, "recvonly"@);
    lemma_ci_ne_len("Simulcast"@, "rtcp"@);
    lemma_ci_ne_len("Simulcast"@, "rtcp-fb"@);
    lemma_ci_ne_len("Simulcast"@, "rtcp-mux"@);
    lemma_ci_ne_len("Simulcast"@, "rtcp-rsize"@);
    lemma_ci_ne_len("Simulcast"@, "rtpmap"@);
    lemma_ci_ne_len("Simulcast"@, "sctpmap"@);
    lemma_ci_ne_at("Simulcast"@, "sctp-port"@, 1);
    lemma_ci_ne_len("Simulcast"@, "sendonly"@);
    lemma_ci_ne_len("Simulcast"@, "sendrecv"@);
    lemma_ci_ne_len("Simulcast"@, "setup"@);
    assert(ci_eq("Simulcast"@, "simulcast"@)) by {
        assert(to_lower("Simulcast"@) =~= to_lower("simulcast"@));
    }
}

proof fn rt_ssrc()
    ensures
        kind_of_keyword(SdpAttributeType::Ssrc.display_spec()) == Some(SdpAttributeType::Ssrc),
{
    reveal_strlit("Ssrc");
    reveal_strlit("bundle-only");
    reveal_strlit("candidate");
    reveal_strlit("end-of-candidates");
    reveal_strlit("extmap");
    reveal_strlit("fingerprint");
    reveal_strlit("fmtp");
    reveal_strlit("group");
    reveal_strlit("ice-lite");
    reveal_strlit("ice-options");
    reveal_strlit("ice-pwd");
    reveal_strlit("ice-ufrag");
    reveal_strlit("inactive");
    reveal_strlit("mid");
    reveal_strlit("msid");
    reveal_strlit("msid-semantic");
    reveal_strlit("rid");
    reveal_strlit("recvonly");
    reveal_strlit("rtcp");
    reveal_strlit("rtcp-fb");
    reveal_strlit("rtcp-mux");
    reveal_strlit("rtcp-rsize");
    reveal_strlit("rtpmap");
    reveal_strlit("sctpmap");
    reveal_strlit("sctp-port");
    reveal_strlit("sendonly");
    reveal_strlit("sendrecv");
    reveal_strlit("setup");
    reveal_strlit("simulcast");
    reveal_strlit("ssrc");
    lemma_ci_ne_len("Ssrc"@, "bundle-only"@);
    lemma_ci_ne_len("Ssrc"@, "candidate"@);
    lemma_ci_ne_len("Ssrc"@, "end-of-candidates"@);
    lemma_ci_ne_len("Ssrc"@, "extmap"@);
    lemma_ci_ne_len("Ssrc"@, "fingerprint"@);
    lemma_ci_ne_at("Ssrc"@, "fmtp"@, 0);
    lemma_ci_ne_len("Ssrc"@, "group"@);
    lemma_ci_ne_len("Ssrc"@, "ice-lite"@);
    lemma_ci_ne_len("Ssrc"@, "ice-options"@);
    lemma_ci_ne_len("Ssrc"@, "ice-pwd"@);
    lemma_ci_ne_len("Ssrc"@, "ice-ufrag"@);
    lemma_ci_ne_len("Ssrc"@, "inactive"@);
    lemma_ci_ne_len("Ssrc"@, "mid"@);
    lemma_ci_ne_at("Ssrc"@, "msid"@, 0);
    lemma_ci_ne_len("Ssrc"@, "msid-semantic"@);
    lemma_ci_ne_len("Ssrc"@, "rid"@);
    lemma_ci_ne_len("Ssrc"@, "recvonly"@);
    lemma_ci_ne_at("Ssrc"@, "rtcp"@, 0);
    lemma_ci_ne_len("Ssrc"@, "rtcp-fb"@);
    lemma_ci_ne_len("Ssrc"@, "rtcp-mux"@);
    lemma_ci_ne_len("Ssrc"@, "rtcp-rsize"@);
    lemma_ci_ne_len("Ssrc"@, "rtpmap"@);
    lemma_ci_ne_len("Ssrc"@, "sctpmap"@);
    lemma_ci_ne_len("Ssrc"@, "sctp-port"@);
    lemma_ci_ne_len("Ssrc"@, "sendonly"@);
    lemma_ci_ne_len("Ssrc"@, "sendrecv"@);
    lemma_ci_ne_len("Ssrc"@, "setup"@);
    lemma_ci_ne_len("Ssrc"@, "simulcast"@);
    assert(ci_eq("Ssrc"@, "ssrc"@)) by {
        assert(to_lower("Ssrc"@) =~= to_lower("ssrc"@));
    }
}

proof fn rt_ssrc_group()
    ensures
        kind_of_keyword(SdpAttributeType::SsrcGroup.display_spec()) == Some(SdpAttributeType::SsrcGroup),
{
    reveal_strlit("Ssrc-Group");
    reveal_strlit("bundle-only");
    reveal_strlit("candidate");
    reveal_strlit("end-of-candidates");
    reveal_strlit("extmap");
    reveal_strlit("fingerprint");
    reveal_strlit("fmtp");
    reveal_strlit("group");
    reveal_strlit("ice-lite");
    reveal_strlit("ice-options");
    reveal_strlit("ice-pwd");
    reveal_strlit("ice-ufrag");
    reveal_strlit("inactive");
    reveal_strlit("mid");
    reveal_strlit("msid");
    reveal_strlit("msid-semantic");
    reveal_strlit("rid");
    reveal_strlit("recvonly");
    reveal_strlit("rtcp");
    reveal_strlit("rtcp-fb");
    reveal_strlit("rtcp-mux");
    reveal_strlit("rtcp-rsize");
    reveal_strlit("rtpmap");
    reveal_strlit("sctpmap");
    reveal_strlit("sctp-port");
    reveal_strlit("sendonly");
    reveal_strlit("sendrecv");
    reveal_strlit("setup");
    reveal_strlit("simulcast");
    reveal_strlit("ssrc");
    reveal_strlit("ssrc-group");
    lemma_ci_ne_len("Ssrc-Group"@, "bundle-only"@);
    lemma_ci_ne_len("Ssrc-Group"@, "candidate"@);
    lemma_ci_ne_len("Ssrc-Group"@, "end-of-candidates"@);
    lemma_ci_ne_len("Ssrc-Group"@, "extmap"@);
    lemma_ci_ne_len("Ssrc-Group"@, "fingerprint"@);
    lemma_ci_ne_len("Ssrc-Group"@, "fmtp"@);
    lemma_ci_ne_len("Ssrc-Group"@, "group"@);
    lemma_ci_ne_len("Ssrc-Group"@, "ice-lite"@);
    lemma_ci_ne_len("Ssrc-Group"@, "ice-options"@);
    lemma_ci_ne_len("Ssrc-Group"@, "ice-pwd"@);
    lemma_ci_ne_len("Ssrc-Group"@, "ice-ufrag"@);
    lemma_ci_ne_len("Ssrc-Group"@, "inactive"@);
    lemma_ci_ne_len("Ssrc-Group"@, "mid"@);
    lemma_ci_ne_len("Ssrc-Group"@, "msid"@);
    lemma_ci_ne_len("Ssrc-Group"@, "msid-semantic"@);
    lemma_ci_ne_len("Ssrc-Group"@, "rid"@);
    lemma_ci_ne_len("Ssrc-Group"@, "recvonly"@);
    lemma_ci_ne_len("Ssrc-Group"@, "rtcp"@);
    lemma_ci_ne_len("Ssrc-Group"@, "rtcp-fb"@);
    lemma_ci_ne_len("Ssrc-Group"@, "rtcp-mux"@);
    lemma_ci_ne_at("Ssrc-Group"@, "rtcp-rsize"@, 0);
    lemma_ci_ne_len("Ssrc-Group"@, "rtpmap"@);
    lemma_ci_ne_len("Ssrc-Group"@, "sctpmap"@);
    lemma_ci_ne_len("Ssrc-Group"@, "sctp-port"@);
    lemma_ci_ne_len("Ssrc-Group"@, "sendonly"@);
    lemma_ci_ne_len("Ssrc-Group"@, "sendrecv"@);
    lemma_ci_ne_len("Ssrc-Group"@, "setup"@);
    lemma_ci_ne_len("Ssrc-Group"@, "simulcast"@);
    lemma_ci_ne_len("Ssrc-Group"@, "ssrc"@);
    assert(ci_eq("Ssrc-Group"@, "ssrc-group"@)) by {
        assert(to_lower("Ssrc-Group"@) =~= to_lower("ssrc-group"@));
    }
}

/// Classifying the canonical display spelling of any kind yields that
/// kind again: the keyword table and the display table round-trip.
pub proof fn lemma_classify_display_roundtrip(k: SdpAttributeType)
    ensures
        kind_of_keyword(k.display_spec()) == Some(k),
{
    match k {
        SdpAttributeType::BundleOnly => rt_bundle_only(),
        SdpAttributeType::Candidate => rt_candidate(),
        SdpAttributeType::EndOfCandidates => rt_end_of_candidates(),
        SdpAttributeType::Extmap => rt_extmap(),
        SdpAttributeType::Fingerprint => rt_fingerprint(),
        SdpAttributeType::Fmtp => rt_fmtp(),
        SdpAttributeType::Group => rt_group(),
        SdpAttributeType::IceLite => rt_ice_lite(),
        SdpAttributeType::IceOptions => rt_ice_options(),
        SdpAttributeType::IcePwd => rt_ice_pwd(),
        SdpAttributeType::IceUfrag => rt_ice_ufrag(),
        SdpAttributeType::Inactive => rt_inactive(),
        SdpAttributeType::Mid => rt_mid(),
        SdpAttributeType::Msid => rt_msid(),
        SdpAttributeType::MsidSemantic => rt_msid_semantic(),
        SdpAttributeType::Rid => rt_rid(),
        SdpAttributeType::Recvonly => rt_recvonly(),
        SdpAttributeType::Rtcp => rt_rtcp(),
        SdpAttributeType::RtcpFb => rt_rtcp_fb(),
        SdpAttributeType::RtcpMux => rt_rtcp_mux(),
        SdpAttributeType::RtcpRsize => rt_rtcp_rsize(),
        SdpAttributeType::Rtpmap => rt_rtpmap(),
        SdpAttributeType::Sctpmap => rt_sctpmap(),
        SdpAttributeType::SctpPort => rt_sctp_port(),
        SdpAttributeType::Sendonly => rt_sendonly(),
        SdpAttributeType::Sendrecv => rt_sendrecv(),
        SdpAttributeType::Setup => rt_setup(),
        SdpAttributeType::Simulcast => rt_simulcast(),
        SdpAttributeType::Ssrc => rt_ssrc(),
        SdpAttributeType::SsrcGroup => rt_ssrc_group(),
    }
}

} // verus!

verus! {

/// Transport of an ICE candidate.
#[derive(Clone, Copy, Debug, PartialEq, Eq, Structural)]
pub enum SdpAttributeCandidateTransport {
    Udp,
    Tcp,
}

/// Type of an ICE candidate.
#[derive(Clone, Copy, Debug, PartialEq, Eq, Structural)]
pub enum SdpAttributeCandidateType {
    Host,
    Srflx,
    Prflx,
    Relay,
}

/// TCP role of an ICE candidate.
#[derive(Clone, Copy, Debug, PartialEq, Eq, Structural)]
pub enum SdpAttributeCandidateTcpType {
    Active,
    Passive,
    Simultaneous,
}

/// A media direction sub-token.
#[derive(Clone, Copy, Debug, PartialEq, Eq, Structural)]
pub enum SdpAttributeDirection {
    Recvonly,
    Sendonly,
    Sendrecv,
}

/// The DTLS setup role.
#[derive(Clone, Copy, Debug, PartialEq, Eq, Structural)]
pub enum SdpAttributeSetup {
    Active,
    Actpass,
    Holdconn,
    Passive,
}

/// The seven recognized group semantics.
#[derive(Clone, Copy, Debug, PartialEq, Eq, Structural)]
pub enum SdpAttributeGroupSemantic {
    LipSynchronization,
    FlowIdentification,
    SingleReservationFlow,
    AlternateNetworkAddressType,
    ForwardErrorCorrection,
    DecodingDependency,
    Bundle,
}

/// A parsed ICE candidate.
#[derive(Clone, Debug)]
pub struct SdpAttributeCandidate {
    pub foundation: String,
    pub component: u32,
    pub transport: SdpAttributeCandidateTransport,
    pub priority: u64,
    pub address: crate::network::SdpIpAddr,
    pub port: u32,
    pub c_type: SdpAttributeCandidateType,
    pub raddr: Option<crate::network::SdpIpAddr>,
    pub rport: Option<u32>,
    pub tcp_type: Option<SdpAttributeCandidateTcpType>,
}

impl SdpAttributeCandidate {
    /// A candidate with the eight required fields and no extension yet.
    pub fn new(
        fd: String,
        comp: u32,
        transp: SdpAttributeCandidateTransport,
        prio: u64,
        addr: crate::network::SdpIpAddr,
        port: u32,
        ctyp: SdpAttributeCandidateType,
    ) -> (r: SdpAttributeCandidate)
        ensures
            r.foundation == fd,
            r.component == comp,
            r.transport == transp,
            r.priority == prio,
            r.address == addr,
            r.port == port,
            r.c_type == ctyp,
            r.raddr is None,
            r.rport is None,
            r.tcp_type is None,
    {
        SdpAttributeCandidate {
            foundation: fd,
            component: comp,
            transport: transp,
            priority: prio,
            address: addr,
            port: port,
            c_type: ctyp,
            raddr: None,
            rport: None,
            tcp_type: None,
        }
    }

    fn set_remote_address(&mut self, ip: crate::network::SdpIpAddr)
        ensures
            *final(self) == (SdpAttributeCandidate { raddr: Some(ip), ..*old(self) }),
    {
        self.raddr = Some(ip)
    }

    fn set_remote_port(&mut self, p: u32)
        ensures
            *final(self) == (SdpAttributeCandidate { rport: Some(p), ..*old(self) }),
    {
        self.rport = Some(p)
    }

    fn set_tcp_type(&mut self, t: SdpAttributeCandidateTcpType)
        ensures
            *final(self) == (SdpAttributeCandidate { tcp_type: Some(t), ..*old(self) }),
    {
        self.tcp_type = Some(t)
    }
}

/// What one simulcast identifier token means: the identifier with a
/// leading `~` stripped, and whether that pause marker was present.
pub open spec fn sim_id_of(t: Seq<char>) -> (Seq<char>, bool) {
    if t.len() > 0 && t[0] == '~' {
        (t.drop_first(), true)
    } else {
        (t, false)
    }
}

/// One simulcast stream identifier, possibly marked paused.
#[derive(Clone, Debug)]
pub struct SdpAttributeSimulcastId {
    pub id: String,
    pub paused: bool,
}

impl SdpAttributeSimulcastId {
    /// Reads one identifier token, exactly as specified by [`sim_id_of`].
    pub fn new(idstr: String) -> (r: SdpAttributeSimulcastId)
        ensures
            r.id@ == sim_id_of(idstr@).0,
            r.paused == sim_id_of(idstr@).1,
    {
        let s = idstr.as_str();
        let n: usize = s.unicode_len();
        if n > 0 && s.get_char(0) == '~' {
            let rest = String::from_str(s.substring_char(1, n));
            proof {
                assert(idstr@.drop_first() =~= idstr@.subrange(1, n as int));
            }
            SdpAttributeSimulcastId { id: rest, paused: true }
        } else {
            SdpAttributeSimulcastId { id: idstr, paused: false }
        }
    }
}

/// Whether the identifier list matches the comma-separated identifier
/// tokens of `idlist`, in order.
pub open spec fn sim_ids_match(ids: Seq<SdpAttributeSimulcastId>, idlist: Seq<char>) -> bool {
    let parts = crate::strutil::split_on(idlist, ',');
    &&& ids.len() == parts.len()
    &&& forall|k: int|
        0 <= k < parts.len() ==> (#[trigger] ids[k]).id@ == sim_id_of(parts[k]).0 && ids[k].paused
            == sim_id_of(parts[k]).1
}

/// One alternative list of a simulcast direction: identifiers that are
/// alternatives for one another.
#[derive(Clone, Debug)]
pub struct SdpAttributeSimulcastAlternatives {
    pub ids: Vec<SdpAttributeSimulcastId>,
}

impl SdpAttributeSimulcastAlternatives {
    /// Splits one alternative list on commas, exactly as specified by
    /// [`sim_ids_match`].
    pub fn new(idlist: String) -> (r: SdpAttributeSimulcastAlternatives)
        ensures
            sim_ids_match(r.ids@, idlist@),
    {
        let parts = crate::strutil::split_char_vec(idlist.as_str(), ',');
        let mut ids: Vec<SdpAttributeSimulcastId> = Vec::new();
        let mut i: usize = 0;
        while i < parts.len()
            invariant
                0 <= i <= parts@.len(),
                parts.deep_view() == crate::strutil::split_on(idlist@, ','),
                ids@.len() == i,
                forall|k: int|
                    0 <= k < i ==> (#[trigger] ids@[k]).id@ == sim_id_of(
                        parts.deep_view()[k],
                    ).0 && ids@[k].paused == sim_id_of(parts.deep_view()[k]).1,
            decreases parts@.len() - i,
        {
            let piece = parts[i].clone();
            proof {
                assert(parts.deep_view()[i as int] == parts@[i as int]@);
            }
            ids.push(SdpAttributeSimulcastId::new(piece));
            i += 1;
        }
        SdpAttributeSimulcastAlternatives { ids }
    }
}

/// Whether the alternatives match the semicolon-separated alternative
/// lists of `idlist`, in order.
pub open spec fn sim_alts_match(
    alts: Seq<SdpAttributeSimulcastAlternatives>,
    idlist: Seq<char>,
) -> bool {
    let lists = crate::strutil::split_on(idlist, ';');
    &&& alts.len() == lists.len()
    &&& forall|k: int|
        0 <= k < lists.len() ==> sim_ids_match((#[trigger] alts[k]).ids@, lists[k])
}

/// The simulcast description: alternatives sent, and alternatives
/// received.
#[derive(Clone, Debug)]
pub struct SdpAttributeSimulcast {
    pub send: Vec<SdpAttributeSimulcastAlternatives>,
    pub receive: Vec<SdpAttributeSimulcastAlternatives>,
}

/// Splits one direction's identifier list on semicolons into alternative
/// lists, exactly as specified by [`sim_alts_match`].
fn parse_simulcast_alternatives(idlist: &str) -> (r: Vec<SdpAttributeSimulcastAlternatives>)
    ensures
        sim_alts_match(r@, idlist@),
{
    let lists = crate::strutil::split_char_vec(idlist, ';');
    let mut alts: Vec<SdpAttributeSimulcastAlternatives> = Vec::new();
    let mut i: usize = 0;
    while i < lists.len()
        invariant
            0 <= i <= lists@.len(),
            lists.deep_view() == crate::strutil::split_on(idlist@, ';'),
            alts@.len() == i,
            forall|k: int|
                0 <= k < i ==> sim_ids_match((#[trigger] alts@[k]).ids@, lists.deep_view()[k]),
        decreases lists@.len() - i,
    {
        let piece = lists[i].clone();
        proof {
            assert(lists.deep_view()[i as int] == lists@[i as int]@);
        }
        alts.push(SdpAttributeSimulcastAlternatives::new(piece));
        i += 1;
    }
    alts
}

/// A parsed RTCP attribute.
#[derive(Clone, Debug)]
pub struct SdpAttributeRtcp {
    pub port: u32,
    pub nettype: crate::network::SdpNetType,
    pub addrtype: crate::network::SdpAddrType,
    pub unicast_addr: crate::network::SdpIpAddr,
}

/// A parsed RTCP feedback attribute.
#[derive(Clone, Debug)]
pub struct SdpAttributeRtcpFb {
    pub payload_type: u32,
    pub feedback_type: String,
}

/// A parsed extension-map entry.
#[derive(Clone, Debug)]
pub struct SdpAttributeExtmap {
    pub id: u32,
    pub direction: Option<SdpAttributeDirection>,
    pub url: String,
}

/// A parsed format-parameters attribute: the payload type and the raw
/// semicolon-separated segments, deliberately unparsed.
#[derive(Clone, Debug)]
pub struct SdpAttributeFmtp {
    pub payload_type: u32,
    pub tokens: Vec<String>,
}

/// A parsed fingerprint attribute; neither field is validated further.
#[derive(Clone, Debug)]
pub struct SdpAttributeFingerprint {
    pub hash_algorithm: String,
    pub fingerprint: String,
}

/// A parsed SCTP map attribute.
#[derive(Clone, Debug)]
pub struct SdpAttributeSctpmap {
    pub port: u32,
    pub channels: u32,
}

/// A parsed group attribute.
#[derive(Clone, Debug)]
pub struct SdpAttributeGroup {
    pub semantics: SdpAttributeGroupSemantic,
    pub tags: Vec<String>,
}

/// A parsed media-stream id attribute.
#[derive(Clone, Debug)]
pub struct SdpAttributeMsid {
    pub id: String,
    pub appdata: Option<String>,
}

/// A parsed RTP payload map attribute.
#[derive(Clone, Debug)]
pub struct SdpAttributeRtpmap {
    pub payload_type: u32,
    pub codec_name: String,
    pub frequency: Option<u32>,
    pub channels: Option<u32>,
}

impl SdpAttributeRtpmap {
    /// A payload map with no frequency or channel count yet.
    pub fn new(pt: u32, codec: String) -> (r: SdpAttributeRtpmap)
        ensures
            r.payload_type == pt,
            r.codec_name == codec,
            r.frequency is None,
            r.channels is None,
    {
        SdpAttributeRtpmap { payload_type: pt, codec_name: codec, frequency: None, channels: None }
    }

    fn set_frequency(&mut self, f: u32)
        ensures
            *final(self) == (SdpAttributeRtpmap { frequency: Some(f), ..*old(self) }),
    {
        self.frequency = Some(f)
    }

    fn set_channels(&mut self, c: u32)
        ensures
            *final(self) == (SdpAttributeRtpmap { channels: Some(c), ..*old(self) }),
    {
        self.channels = Some(c)
    }
}

/// A parsed synchronization-source attribute.
#[derive(Clone, Debug)]
pub struct SdpAttributeSsrc {
    pub id: u32,
    pub attribute: Option<String>,
    pub value: Option<String>,
}

impl SdpAttributeSsrc {
    /// A synchronization source with no attribute yet.
    pub fn new(id: u32) -> (r: SdpAttributeSsrc)
        ensures
            r.id == id,
            r.attribute is None,
            r.value is None,
    {
        SdpAttributeSsrc { id: id, attribute: None, value: None }
    }

    fn set_attribute(&mut self, a: &str)
        ensures
            final(self).id == old(self).id,
            !crate::strutil::has_char(a@, ':') ==> (final(self).attribute is Some
                && final(self).attribute->0@ == a@
                && final(self).value == old(self).value),
            crate::strutil::has_char(a@, ':') ==> (final(self).attribute is Some
                && final(self).attribute->0@ == crate::strutil::split_first_on(a@, ':')[0]
                && final(self).value is Some
                && final(self).value->0@ == crate::strutil::split_first_on(a@, ':')[1]),
    {
        let parts = crate::strutil::split_first_char_vec(a, ':');
        if parts.len() == 1 {
            proof {
                assert(!crate::strutil::has_char(a@, ':')) by {
                    if crate::strutil::has_char(a@, ':') {
                        assert(crate::strutil::split_first_on(a@, ':').len() == 2);
                    }
                }
                assert(parts.deep_view()[0] == parts@[0]@);
            }
            self.attribute = Some(parts[0].clone());
        } else {
            proof {
                assert(crate::strutil::has_char(a@, ':')) by {
                    if !crate::strutil::has_char(a@, ':') {
                        assert(crate::strutil::split_first_on(a@, ':').len() == 1);
                    }
                }
                assert(parts.deep_view()[0] == parts@[0]@);
                assert(parts.deep_view()[1] == parts@[1]@);
            }
            self.attribute = Some(parts[0].clone());
            self.value = Some(parts[1].clone());
        }
    }
}

/// The payload of one attribute: exactly one variant is possible for any
/// given kind.
#[derive(Clone, Debug)]
pub enum SdpAttributeValue {
    Str { value: String },
    Int { value: u32 },
    Vector { value: Vec<String> },
    Candidate { value: SdpAttributeCandidate },
    Extmap { value: SdpAttributeExtmap },
    Fingerprint { value: SdpAttributeFingerprint },
    Fmtp { value: SdpAttributeFmtp },
    Group { value: SdpAttributeGroup },
    Msid { value: SdpAttributeMsid },
    Rtpmap { value: SdpAttributeRtpmap },
    Rtcp { value: SdpAttributeRtcp },
    Rtcpfb { value: SdpAttributeRtcpFb },
    Sctpmap { value: SdpAttributeSctpmap },
    Setup { value: SdpAttributeSetup },
    Simulcast { value: SdpAttributeSimulcast },
    Ssrc { value: SdpAttributeSsrc },
}

/// One attribute line: its kind, and its parsed payload once
/// [`SdpAttribute::parse_value`] has accepted one.
#[derive(Clone, Debug)]
pub struct SdpAttribute {
    pub name: SdpAttributeType,
    pub value: Option<SdpAttributeValue>,
}

} // verus!

verus! {

use crate::error::SdpErrorKind;
use crate::strutil::split_ws;
use crate::strutil::split_on;
use crate::strutil::split_first_on;
use crate::strutil::split_ws_once;
use crate::strutil::has_ws;
use crate::strutil::has_char;
use crate::strutil::u32_from_str;
use crate::strutil::u64_from_str;
use crate::network::addr_valid;
use crate::network::addr_matches;
use crate::network::addr_matches_typed;
use crate::network::addrtype_of;
use crate::network::inferred_family;

/// Which candidate transport a token names.
pub open spec fn transport_of(t: Seq<char>) -> Option<SdpAttributeCandidateTransport> {
    if ci_eq(t, "udp"@) {
        Some(SdpAttributeCandidateTransport::Udp)
    } else if ci_eq(t, "tcp"@) {
        Some(SdpAttributeCandidateTransport::Tcp)
    } else {
        None
    }
}

/// Which candidate type a token names.
pub open spec fn cand_type_of(t: Seq<char>) -> Option<SdpAttributeCandidateType> {
    if ci_eq(t, "host"@) {
        Some(SdpAttributeCandidateType::Host)
    } else if ci_eq(t, "srflx"@) {
        Some(SdpAttributeCandidateType::Srflx)
    } else if ci_eq(t, "prflx"@) {
        Some(SdpAttributeCandidateType::Prflx)
    } else if ci_eq(t, "relay"@) {
        Some(SdpAttributeCandidateType::Relay)
    } else {
        None
    }
}

/// Which TCP role a candidate extension token names.
pub open spec fn tcp_type_of(t: Seq<char>) -> Option<SdpAttributeCandidateTcpType> {
    if ci_eq(t, "active"@) {
        Some(SdpAttributeCandidateTcpType::Active)
    } else if ci_eq(t, "passive"@) {
        Some(SdpAttributeCandidateTcpType::Passive)
    } else if ci_eq(t, "so"@) {
        Some(SdpAttributeCandidateTcpType::Simultaneous)
    } else {
        None
    }
}

/// Which direction an extension-map suffix names.
pub open spec fn direction_of(t: Seq<char>) -> Option<SdpAttributeDirection> {
    if ci_eq(t, "recvonly"@) {
        Some(SdpAttributeDirection::Recvonly)
    } else if ci_eq(t, "sendonly"@) {
        Some(SdpAttributeDirection::Sendonly)
    } else if ci_eq(t, "sendrecv"@) {
        Some(SdpAttributeDirection::Sendrecv)
    } else {
        None
    }
}

/// Which setup role a payload names.
pub open spec fn setup_of(t: Seq<char>) -> Option<SdpAttributeSetup> {
    if ci_eq(t, "active"@) {
        Some(SdpAttributeSetup::Active)
    } else if ci_eq(t, "actpass"@) {
        Some(SdpAttributeSetup::Actpass)
    } else if ci_eq(t, "holdconn"@) {
        Some(SdpAttributeSetup::Holdconn)
    } else if ci_eq(t, "passive"@) {
        Some(SdpAttributeSetup::Passive)
    } else {
        None
    }
}

/// Which group semantics a token names.
pub open spec fn group_semantic_of(t: Seq<char>) -> Option<SdpAttributeGroupSemantic> {
    if ci_eq(t, "LS"@) {
        Some(SdpAttributeGroupSemantic::LipSynchronization)
    } else if ci_eq(t, "FID"@) {
        Some(SdpAttributeGroupSemantic::FlowIdentification)
    } else if ci_eq(t, "SRF"@) {
        Some(SdpAttributeGroupSemantic::SingleReservationFlow)
    } else if ci_eq(t, "ANAT"@) {
        Some(SdpAttributeGroupSemantic::AlternateNetworkAddressType)
    } else if ci_eq(t, "FEC"@) {
        Some(SdpAttributeGroupSemantic::ForwardErrorCorrection)
    } else if ci_eq(t, "DDP"@) {
        Some(SdpAttributeGroupSemantic::DecodingDependency)
    } else if ci_eq(t, "BUNDLE"@) {
        Some(SdpAttributeGroupSemantic::Bundle)
    } else {
        None
    }
}

/// Which simulcast direction a token names (`send` or `recv`).
pub open spec fn sim_direction_of(t: Seq<char>) -> Option<SdpAttributeDirection> {
    if ci_eq(t, "send"@) {
        Some(SdpAttributeDirection::Sendonly)
    } else if ci_eq(t, "recv"@) {
        Some(SdpAttributeDirection::Recvonly)
    } else {
        None
    }
}

/// The optional candidate extensions accumulated while walking the pairs
/// after the eighth token.
pub struct CandidateExtensions {
    pub raddr: Option<Seq<char>>,
    pub rport: Option<u32>,
    pub tcp_type: Option<SdpAttributeCandidateTcpType>,
}

/// Walks the candidate extension pairs from token `i`: each pair is a
/// keyword and its argument, a later pair overwrites an earlier one with
/// the same keyword, a trailing lone token is ignored, and an unknown
/// keyword is the soft failure.
pub open spec fn cand_ext_step(
    toks: Seq<Seq<char>>,
    i: int,
    cur: CandidateExtensions,
) -> Result<CandidateExtensions, SdpErrorKind>
    decreases toks.len() - i,
{
    if i + 1 >= toks.len() || i < 0 {
        Ok(cur)
    } else if ci_eq(toks[i], "raddr"@) {
        if addr_valid(inferred_family(toks[i + 1]), toks[i + 1]) {
            cand_ext_step(
                toks,
                i + 2,
                CandidateExtensions {
                    raddr: Some(toks[i + 1]),
                    rport: cur.rport,
                    tcp_type: cur.tcp_type,
                },
            )
        } else {
            Err(SdpErrorKind::Malformed)
        }
    } else if ci_eq(toks[i], "rport"@) {
        if u32_from_str(toks[i + 1]) is Some && u32_from_str(toks[i + 1])->0 <= 65535 {
            cand_ext_step(
                toks,
                i + 2,
                CandidateExtensions {
                    raddr: cur.raddr,
                    rport: Some(u32_from_str(toks[i + 1])->0),
                    tcp_type: cur.tcp_type,
                },
            )
        } else {
            Err(SdpErrorKind::Malformed)
        }
    } else if ci_eq(toks[i], "tcptype"@) {
        if tcp_type_of(toks[i + 1]) is Some {
            cand_ext_step(
                toks,
                i + 2,
                CandidateExtensions {
                    raddr: cur.raddr,
                    rport: cur.rport,
                    tcp_type: tcp_type_of(toks[i + 1]),
                },
            )
        } else {
            Err(SdpErrorKind::Malformed)
        }
    } else {
        Err(SdpErrorKind::Unsupported)
    }
}

/// No extensions yet: the state before the first extension pair.
pub open spec fn no_extensions() -> CandidateExtensions {
    CandidateExtensions { raddr: None, rport: None, tcp_type: None }
}

/// The candidate grammar: at least eight whitespace tokens (foundation,
/// component, transport, priority, address, port, the literal `typ`, and
/// the candidate type), then extension pairs.  `None` means the payload
/// is accepted.
pub open spec fn candidate_outcome(v: Seq<char>) -> Option<SdpErrorKind> {
    let toks = split_ws(v);
    if toks.len() < 8 {
        Some(SdpErrorKind::Malformed)
    } else if u32_from_str(toks[1]) is None {
        Some(SdpErrorKind::Malformed)
    } else if transport_of(toks[2]) is None {
        Some(SdpErrorKind::Malformed)
    } else if u64_from_str(toks[3]) is None {
        Some(SdpErrorKind::Malformed)
    } else if !addr_valid(inferred_family(toks[4]), toks[4]) {
        Some(SdpErrorKind::Malformed)
    } else if u32_from_str(toks[5]) is None || u32_from_str(toks[5])->0 > 65535 {
        Some(SdpErrorKind::Malformed)
    } else if !ci_eq(toks[6], "typ"@) {
        Some(SdpErrorKind::Malformed)
    } else if cand_type_of(toks[7]) is None {
        Some(SdpErrorKind::Malformed)
    } else {
        match cand_ext_step(toks, 8, no_extensions()) {
            Ok(_) => None,
            Err(k) => Some(k),
        }
    }
}

/// Whether a candidate record holds exactly the values the candidate
/// grammar reads from `v`.
pub open spec fn candidate_matches(v: Seq<char>, c: SdpAttributeCandidate) -> bool {
    let toks = split_ws(v);
    &&& c.foundation@ == toks[0]
    &&& Some(c.component) == u32_from_str(toks[1])
    &&& Some(c.transport) == transport_of(toks[2])
    &&& Some(c.priority) == u64_from_str(toks[3])
    &&& addr_matches(c.address, toks[4])
    &&& Some(c.port) == u32_from_str(toks[5])
    &&& Some(c.c_type) == cand_type_of(toks[7])
    &&& match cand_ext_step(toks, 8, no_extensions()) {
        Ok(st) => {
            &&& match (c.raddr, st.raddr) {
                (None, None) => true,
                (Some(a), Some(t)) => addr_matches(a, t),
                _ => false,
            }
            &&& c.rport == st.rport
            &&& c.tcp_type == st.tcp_type
        },
        Err(_) => false,
    }
}

/// The extension-map grammar: exactly two tokens, the first an id with an
/// optional `/direction` suffix, the second an opaque url.
pub open spec fn extmap_outcome(v: Seq<char>) -> Option<SdpErrorKind> {
    let toks = split_ws(v);
    if toks.len() != 2 {
        Some(SdpErrorKind::Malformed)
    } else if !has_char(toks[0], '/') {
        if u32_from_str(toks[0]) is None {
            Some(SdpErrorKind::Malformed)
        } else {
            None
        }
    } else {
        let parts = split_first_on(toks[0], '/');
        if u32_from_str(parts[0]) is None {
            Some(SdpErrorKind::Malformed)
        } else if direction_of(parts[1]) is None {
            Some(SdpErrorKind::Malformed)
        } else {
            None
        }
    }
}

/// Whether an extension-map record holds exactly what the grammar reads
/// from `v`.
pub open spec fn extmap_matches(v: Seq<char>, e: SdpAttributeExtmap) -> bool {
    let toks = split_ws(v);
    &&& e.url@ == toks[1]
    &&& if !has_char(toks[0], '/') {
        Some(e.id) == u32_from_str(toks[0]) && e.direction is None
    } else {
        let parts = split_first_on(toks[0], '/');
        Some(e.id) == u32_from_str(parts[0]) && e.direction == direction_of(parts[1])
            && e.direction is Some
    }
}

/// The fingerprint grammar: exactly two tokens, stored unvalidated.
pub open spec fn fingerprint_outcome(v: Seq<char>) -> Option<SdpErrorKind> {
    if split_ws(v).len() != 2 {
        Some(SdpErrorKind::Malformed)
    } else {
        None
    }
}

/// The format-parameters grammar: exactly two tokens, the first a numeric
/// payload type; the whole payload is also split on semicolons into raw
/// segments.
pub open spec fn fmtp_outcome(v: Seq<char>) -> Option<SdpErrorKind> {
    let toks = split_ws(v);
    if toks.len() != 2 {
        Some(SdpErrorKind::Malformed)
    } else if u32_from_str(toks[0]) is None {
        Some(SdpErrorKind::Malformed)
    } else {
        None
    }
}

/// The group grammar: a semantics token out of the seven recognized ones,
/// then any number of tags.
pub open spec fn group_outcome(v: Seq<char>) -> Option<SdpErrorKind> {
    let toks = split_ws(v);
    if toks.len() == 0 {
        Some(SdpErrorKind::Malformed)
    } else if group_semantic_of(toks[0]) is None {
        Some(SdpErrorKind::Malformed)
    } else {
        None
    }
}

/// The media-stream id grammar: an id token, an optional app-data token,
/// anything further ignored.
pub open spec fn msid_outcome(v: Seq<char>) -> Option<SdpErrorKind> {
    if split_ws(v).len() == 0 {
        Some(SdpErrorKind::Malformed)
    } else {
        None
    }
}

/// The RTCP grammar: exactly four tokens: a port of at most 65535, the
/// network type, the address family, and an address of that family.
pub open spec fn rtcp_outcome(v: Seq<char>) -> Option<SdpErrorKind> {
    let toks = split_ws(v);
    if toks.len() != 4 {
        Some(SdpErrorKind::Malformed)
    } else if u32_from_str(toks[0]) is None || u32_from_str(toks[0])->0 > 65535 {
        Some(SdpErrorKind::Malformed)
    } else if !ci_eq(toks[1], "IN"@) {
        Some(SdpErrorKind::Malformed)
    } else if addrtype_of(toks[2]) is None {
        Some(SdpErrorKind::Malformed)
    } else if !addr_valid(addrtype_of(toks[2])->0, toks[3]) {
        Some(SdpErrorKind::Malformed)
    } else {
        None
    }
}

/// Whether an RTCP record holds exactly what the grammar reads from `v`.
pub open spec fn rtcp_matches(v: Seq<char>, r: SdpAttributeRtcp) -> bool {
    let toks = split_ws(v);
    &&& Some(r.port) == u32_from_str(toks[0])
    &&& r.nettype == crate::network::SdpNetType::Internet
    &&& Some(r.addrtype) == addrtype_of(toks[2])
    &&& addr_matches_typed(r.addrtype, r.unicast_addr, toks[3])
}

/// The RTCP feedback grammar: a numeric payload type before the first
/// whitespace run, the remainder stored opaque.
pub open spec fn rtcpfb_outcome(v: Seq<char>) -> Option<SdpErrorKind> {
    if !has_ws(v) {
        Some(SdpErrorKind::Malformed)
    } else if u32_from_str(split_ws_once(v).0) is None {
        Some(SdpErrorKind::Malformed)
    } else {
        None
    }
}

/// The RTP payload map grammar: exactly two tokens, the first a numeric
/// payload type, the second a codec name with at most two optional
/// numeric subtokens separated by `/`.
pub open spec fn rtpmap_outcome(v: Seq<char>) -> Option<SdpErrorKind> {
    let toks = split_ws(v);
    if toks.len() != 2 {
        Some(SdpErrorKind::Malformed)
    } else if u32_from_str(toks[0]) is None {
        Some(SdpErrorKind::Malformed)
    } else {
        let parts = split_on(toks[1], '/');
        if parts.len() > 3 {
            Some(SdpErrorKind::Malformed)
        } else if parts.len() > 1 && u32_from_str(parts[1]) is None {
            Some(SdpErrorKind::Malformed)
        } else if parts.len() > 2 && u32_from_str(parts[2]) is None {
            Some(SdpErrorKind::Malformed)
        } else {
            None
        }
    }
}

/// Whether a payload map record holds exactly what the grammar reads
/// from `v`.
pub open spec fn rtpmap_matches(v: Seq<char>, r: SdpAttributeRtpmap) -> bool {
    let toks = split_ws(v);
    let parts = split_on(toks[1], '/');
    &&& Some(r.payload_type) == u32_from_str(toks[0])
    &&& r.codec_name@ == parts[0]
    &&& r.frequency == (if parts.len() > 1 {
        u32_from_str(parts[1])
    } else {
        None
    })
    &&& r.channels == (if parts.len() > 2 {
        u32_from_str(parts[2])
    } else {
        None
    })
}

/// The SCTP map grammar: exactly three tokens: a port of at most 65535,
/// the literal `webrtc-datachannel`, and a numeric channel count.
pub open spec fn sctpmap_outcome(v: Seq<char>) -> Option<SdpErrorKind> {
    let toks = split_ws(v);
    if toks.len() != 3 {
        Some(SdpErrorKind::Malformed)
    } else if u32_from_str(toks[0]) is None || u32_from_str(toks[0])->0 > 65535 {
        Some(SdpErrorKind::Malformed)
    } else if !ci_eq(toks[1], "webrtc-datachannel"@) {
        Some(SdpErrorKind::Malformed)
    } else if u32_from_str(toks[2]) is None {
        Some(SdpErrorKind::Malformed)
    } else {
        None
    }
}

/// The SCTP port grammar: a single number of at most 65535.
pub open spec fn sctp_port_outcome(v: Seq<char>) -> Option<SdpErrorKind> {
    if u32_from_str(v) is None || u32_from_str(v)->0 > 65535 {
        Some(SdpErrorKind::Malformed)
    } else {
        None
    }
}

/// The last identifier lists assigned to each simulcast direction while
/// walking the payload.
pub struct SimulcastLists {
    pub send_list: Option<Seq<char>>,
    pub recv_list: Option<Seq<char>>,
}

/// Walks the simulcast pairs from token `i`: a direction keyword then its
/// identifier list; assigning a direction a second time overwrites the
/// first assignment; a direction keyword without a following list fails.
pub open spec fn simulcast_step(
    toks: Seq<Seq<char>>,
    i: int,
    cur: SimulcastLists,
) -> Result<SimulcastLists, SdpErrorKind>
    decreases toks.len() - i,
{
    if i < 0 || i >= toks.len() {
        Ok(cur)
    } else if sim_direction_of(toks[i]) is None {
        Err(SdpErrorKind::Malformed)
    } else if i + 1 >= toks.len() {
        Err(SdpErrorKind::Malformed)
    } else {
        let nxt = if sim_direction_of(toks[i]) == Some(SdpAttributeDirection::Sendonly) {
            SimulcastLists { send_list: Some(toks[i + 1]), recv_list: cur.recv_list }
        } else {
            SimulcastLists { send_list: cur.send_list, recv_list: Some(toks[i + 1]) }
        };
        simulcast_step(toks, i + 2, nxt)
    }
}

/// No direction assigned yet: the state before the first pair.
pub open spec fn no_lists() -> SimulcastLists {
    SimulcastLists { send_list: None, recv_list: None }
}

/// The simulcast grammar: one or more pairs of direction keyword and
/// identifier list.
pub open spec fn simulcast_outcome(v: Seq<char>) -> Option<SdpErrorKind> {
    let toks = split_ws(v);
    if toks.len() == 0 {
        Some(SdpErrorKind::Malformed)
    } else {
        match simulcast_step(toks, 0, no_lists()) {
            Ok(_) => None,
            Err(k) => Some(k),
        }
    }
}

/// Whether a simulcast record holds exactly the alternatives of the last
/// assignment to each direction.
pub open spec fn simulcast_matches(v: Seq<char>, sc: SdpAttributeSimulcast) -> bool {
    match simulcast_step(split_ws(v), 0, no_lists()) {
        Ok(st) => {
            &&& match st.send_list {
                None => sc.send@.len() == 0,
                Some(l) => sim_alts_match(sc.send@, l),
            }
            &&& match st.recv_list {
                None => sc.receive@.len() == 0,
                Some(l) => sim_alts_match(sc.receive@, l),
            }
        },
        Err(_) => false,
    }
}

/// The setup grammar: the whole payload is one of the four roles.
pub open spec fn setup_outcome(v: Seq<char>) -> Option<SdpErrorKind> {
    if setup_of(v) is None {
        Some(SdpErrorKind::Malformed)
    } else {
        None
    }
}

/// The synchronization-source grammar: a numeric id, then an optional
/// attribute token (split at its first `:` into name and value), anything
/// further ignored.
pub open spec fn ssrc_outcome(v: Seq<char>) -> Option<SdpErrorKind> {
    let toks = split_ws(v);
    if toks.len() == 0 {
        Some(SdpErrorKind::Malformed)
    } else if u32_from_str(toks[0]) is None {
        Some(SdpErrorKind::Malformed)
    } else {
        None
    }
}

/// Whether a synchronization-source record holds exactly what the grammar
/// reads from `v`.
pub open spec fn ssrc_matches(v: Seq<char>, s: SdpAttributeSsrc) -> bool {
    let toks = split_ws(v);
    &&& Some(s.id) == u32_from_str(toks[0])
    &&& if toks.len() == 1 {
        s.attribute is None && s.value is None
    } else if !has_char(toks[1], ':') {
        s.attribute is Some && s.attribute->0@ == toks[1] && s.value is None
    } else {
        &&& s.attribute is Some
        &&& s.attribute->0@ == split_first_on(toks[1], ':')[0]
        &&& s.value is Some
        &&& s.value->0@ == split_first_on(toks[1], ':')[1]
    }
}

/// The nine flag kinds, whose payload must be empty.
pub open spec fn is_flag_kind(k: SdpAttributeType) -> bool {
    match k {
        SdpAttributeType::BundleOnly => true,
        SdpAttributeType::EndOfCandidates => true,
        SdpAttributeType::IceLite => true,
        SdpAttributeType::Inactive => true,
        SdpAttributeType::Recvonly => true,
        SdpAttributeType::RtcpMux => true,
        SdpAttributeType::RtcpRsize => true,
        SdpAttributeType::Sendonly => true,
        SdpAttributeType::Sendrecv => true,
        _ => false,
    }
}

/// The six kinds whose payload is stored verbatim.
pub open spec fn is_string_kind(k: SdpAttributeType) -> bool {
    match k {
        SdpAttributeType::IcePwd => true,
        SdpAttributeType::IceUfrag => true,
        SdpAttributeType::Mid => true,
        SdpAttributeType::Rid => true,
        SdpAttributeType::MsidSemantic => true,
        SdpAttributeType::SsrcGroup => true,
        _ => false,
    }
}

/// Whether a payload is accepted for a kind, and with which diagnostic it
/// is rejected: `None` means accepted.
pub open spec fn value_outcome(kind: SdpAttributeType, v: Seq<char>) -> Option<SdpErrorKind> {
    if is_flag_kind(kind) {
        if v.len() == 0 {
            None
        } else {
            Some(SdpErrorKind::Malformed)
        }
    } else if is_string_kind(kind) {
        None
    } else {
        match kind {
            SdpAttributeType::IceOptions => None,
            SdpAttributeType::SctpPort => sctp_port_outcome(v),
            SdpAttributeType::Candidate => candidate_outcome(v),
            SdpAttributeType::Extmap => extmap_outcome(v),
            SdpAttributeType::Fingerprint => fingerprint_outcome(v),
            SdpAttributeType::Fmtp => fmtp_outcome(v),
            SdpAttributeType::Group => group_outcome(v),
            SdpAttributeType::Msid => msid_outcome(v),
            SdpAttributeType::Rtcp => rtcp_outcome(v),
            SdpAttributeType::RtcpFb => rtcpfb_outcome(v),
            SdpAttributeType::Rtpmap => rtpmap_outcome(v),
            SdpAttributeType::Sctpmap => sctpmap_outcome(v),
            SdpAttributeType::Setup => setup_outcome(v),
            SdpAttributeType::Simulcast => simulcast_outcome(v),
            SdpAttributeType::Ssrc => ssrc_outcome(v),
            _ => None,
        }
    }
}

/// Whether the payload slot after a successful parse holds exactly what
/// the kind's grammar reads from `v` (`oldv` is the slot before the
/// call: a flag kind leaves it untouched).
pub open spec fn value_matches(
    kind: SdpAttributeType,
    v: Seq<char>,
    oldv: Option<SdpAttributeValue>,
    newv: Option<SdpAttributeValue>,
) -> bool {
    if is_flag_kind(kind) {
        newv == oldv
    } else if is_string_kind(kind) {
        (newv matches Some(SdpAttributeValue::Str { value }) && value@ == v)
    } else {
        match kind {
            SdpAttributeType::IceOptions => (newv matches Some(
                SdpAttributeValue::Vector { value },
            ) && value.deep_view() == split_ws(v)),
            SdpAttributeType::SctpPort => (newv matches Some(SdpAttributeValue::Int { value })
                && Some(value) == u32_from_str(v)),
            SdpAttributeType::Candidate => (newv matches Some(
                SdpAttributeValue::Candidate { value },
            ) && candidate_matches(v, value)),
            SdpAttributeType::Extmap => (newv matches Some(SdpAttributeValue::Extmap { value })
                && extmap_matches(v, value)),
            SdpAttributeType::Fingerprint => (newv matches Some(
                SdpAttributeValue::Fingerprint { value },
            ) && value.hash_algorithm@ == split_ws(v)[0] && value.fingerprint@ == split_ws(v)[1]),
            SdpAttributeType::Fmtp => (newv matches Some(SdpAttributeValue::Fmtp { value })
                && Some(value.payload_type) == u32_from_str(split_ws(v)[0])
                && value.tokens.deep_view() == split_on(v, ';')),
            SdpAttributeType::Group => (newv matches Some(SdpAttributeValue::Group { value })
                && Some(value.semantics) == group_semantic_of(split_ws(v)[0])
                && value.tags.deep_view() == split_ws(v).drop_first()),
            SdpAttributeType::Msid => (newv matches Some(SdpAttributeValue::Msid { value })
                && value.id@ == split_ws(v)[0] && (if split_ws(v).len() >= 2 {
                value.appdata is Some && value.appdata->0@ == split_ws(v)[1]
            } else {
                value.appdata is None
            })),
            SdpAttributeType::Rtcp => (newv matches Some(SdpAttributeValue::Rtcp { value })
                && rtcp_matches(v, value)),
            SdpAttributeType::RtcpFb => (newv matches Some(SdpAttributeValue::Rtcpfb { value })
                && Some(value.payload_type) == u32_from_str(split_ws_once(v).0)
                && value.feedback_type@ == split_ws_once(v).1),
            SdpAttributeType::Rtpmap => (newv matches Some(SdpAttributeValue::Rtpmap { value })
                && rtpmap_matches(v, value)),
            SdpAttributeType::Sctpmap => (newv matches Some(SdpAttributeValue::Sctpmap { value })
                && Some(value.port) == u32_from_str(split_ws(v)[0]) && Some(value.channels)
                == u32_from_str(split_ws(v)[2])),
            SdpAttributeType::Setup => (newv matches Some(SdpAttributeValue::Setup { value })
                && Some(value) == setup_of(v)),
            SdpAttributeType::Simulcast => (newv matches Some(
                SdpAttributeValue::Simulcast { value },
            ) && simulcast_matches(v, value)),
            SdpAttributeType::Ssrc => (newv matches Some(SdpAttributeValue::Ssrc { value })
                && ssrc_matches(v, value)),
            _ => true,
        }
    }
}

} // verus!

verus! {

/// A hard-failure diagnostic carrying the offending text.
fn malformed(msg: &str, line: &str) -> (r: SdpParserError)
    ensures
        r.kind() is Malformed,
        r.offending() == line@,
{
    SdpParserError::Malformed { message: String::from_str(msg), line: String::from_str(line) }
}

/// A soft-failure diagnostic carrying the offending text.
fn unsupported(msg: &str, line: &str) -> (r: SdpParserError)
    ensures
        r.kind() is Unsupported,
        r.offending() == line@,
{
    SdpParserError::Unsupported { message: String::from_str(msg), line: String::from_str(line) }
}

fn parse_extmap_value(v: &str) -> (r: Result<SdpAttributeExtmap, SdpParserError>)
    ensures
        r matches Ok(e) ==> extmap_outcome(v@) is None && extmap_matches(v@, e),
        r matches Err(e) ==> extmap_outcome(v@) == Some(e.kind()),
{
    let toks = crate::strutil::split_whitespace_vec(v);
    if toks.len() != 2 {
        return Err(malformed("Extmap needs to have two tokens", v));
    }
    proof {
        assert(toks.deep_view()[0] == toks@[0]@);
        assert(toks.deep_view()[1] == toks@[1]@);
    }
    let id: u32;
    let mut dir: Option<SdpAttributeDirection> = None;
    if !crate::strutil::str_contains_char(toks[0].as_str(), '/') {
        id = match crate::strutil::parse_u32(toks[0].as_str()) {
            None => {
                return Err(malformed("Extmap id is not a number", v));
            },
            Some(x) => x,
        };
    } else {
        let parts = crate::strutil::split_first_char_vec(toks[0].as_str(), '/');
        proof {
            assert(crate::strutil::split_first_on(toks@[0]@, '/').len() == 2);
            assert(parts.deep_view()[0] == parts@[0]@);
            assert(parts.deep_view()[1] == parts@[1]@);
        }
        id = match crate::strutil::parse_u32(parts[0].as_str()) {
            None => {
                return Err(malformed("Extmap id is not a number", v));
            },
            Some(x) => x,
        };
        dir = if eq_ignore_case(parts[1].as_str(), "recvonly") {
            Some(SdpAttributeDirection::Recvonly)
        } else if eq_ignore_case(parts[1].as_str(), "sendonly") {
            Some(SdpAttributeDirection::Sendonly)
        } else if eq_ignore_case(parts[1].as_str(), "sendrecv") {
            Some(SdpAttributeDirection::Sendrecv)
        } else {
            return Err(malformed("Unsupported direction in extmap value", v));
        };
    }
    Ok(SdpAttributeExtmap { id: id, direction: dir, url: toks[1].clone() })
}

fn parse_fingerprint_value(v: &str) -> (r: Result<SdpAttributeFingerprint, SdpParserError>)
    ensures
        r matches Ok(f) ==> fingerprint_outcome(v@) is None && f.hash_algorithm@ == split_ws(v@)[0]
            && f.fingerprint@ == split_ws(v@)[1],
        r matches Err(e) ==> fingerprint_outcome(v@) == Some(e.kind()),
{
    let toks = crate::strutil::split_whitespace_vec(v);
    if toks.len() != 2 {
        return Err(malformed("Fingerprint needs to have two tokens", v));
    }
    proof {
        assert(toks.deep_view()[0] == toks@[0]@);
        assert(toks.deep_view()[1] == toks@[1]@);
    }
    Ok(SdpAttributeFingerprint { hash_algorithm: toks[0].clone(), fingerprint: toks[1].clone() })
}

fn parse_fmtp_value(v: &str) -> (r: Result<SdpAttributeFmtp, SdpParserError>)
    ensures
        r matches Ok(f) ==> fmtp_outcome(v@) is None && Some(f.payload_type) == u32_from_str(
            split_ws(v@)[0],
        ) && f.tokens.deep_view() == split_on(v@, ';'),
        r matches Err(e) ==> fmtp_outcome(v@) == Some(e.kind()),
{
    let toks = crate::strutil::split_whitespace_vec(v);
    if toks.len() != 2 {
        return Err(malformed("Fmtp needs to have two tokens", v));
    }
    proof {
        assert(toks.deep_view()[0] == toks@[0]@);
    }
    let pt = match crate::strutil::parse_u32(toks[0].as_str()) {
        None => {
            return Err(malformed("Fmtp payload type is not a number", v));
        },
        Some(x) => x,
    };
    Ok(SdpAttributeFmtp { payload_type: pt, tokens: crate::strutil::split_char_vec(v, ';') })
}

fn parse_group_value(v: &str) -> (r: Result<SdpAttributeGroup, SdpParserError>)
    ensures
        r matches Ok(g) ==> group_outcome(v@) is None && Some(g.semantics) == group_semantic_of(
            split_ws(v@)[0],
        ) && g.tags.deep_view() == split_ws(v@).drop_first(),
        r matches Err(e) ==> group_outcome(v@) == Some(e.kind()),
{
    let toks = crate::strutil::split_whitespace_vec(v);
    if toks.len() == 0 {
        return Err(malformed("Group attribute is missing semantics token", v));
    }
    proof {
        assert(toks.deep_view()[0] == toks@[0]@);
    }
    let first = toks[0].as_str();
    let semantics = if eq_ignore_case(first, "LS") {
        SdpAttributeGroupSemantic::LipSynchronization
    } else if eq_ignore_case(first, "FID") {
        SdpAttributeGroupSemantic::FlowIdentification
    } else if eq_ignore_case(first, "SRF") {
        SdpAttributeGroupSemantic::SingleReservationFlow
    } else if eq_ignore_case(first, "ANAT") {
        SdpAttributeGroupSemantic::AlternateNetworkAddressType
    } else if eq_ignore_case(first, "FEC") {
        SdpAttributeGroupSemantic::ForwardErrorCorrection
    } else if eq_ignore_case(first, "DDP") {
        SdpAttributeGroupSemantic::DecodingDependency
    } else if eq_ignore_case(first, "BUNDLE") {
        SdpAttributeGroupSemantic::Bundle
    } else {
        return Err(malformed("Unsupported group semantics", v));
    };
    let mut tags: Vec<String> = Vec::new();
    let mut i: usize = 1;
    while i < toks.len()
        invariant
            1 <= i <= toks@.len(),
            toks.deep_view() == split_ws(v@),
            tags.deep_view() == toks.deep_view().subrange(1, i as int),
        decreases toks@.len() - i,
    {
        proof {
            assert(toks.deep_view()[i as int] == toks@[i as int]@);
        }
        let ghost prev = tags.deep_view();
        tags.push(toks[i].clone());
        proof {
            assert(tags.deep_view() =~= prev + seq![toks@[i as int]@]);
            assert(tags.deep_view() =~= toks.deep_view().subrange(1, i as int + 1));
        }
        i += 1;
    }
    proof {
        assert(toks.deep_view().subrange(1, toks.deep_view().len() as int) =~= toks.deep_view()
            .drop_first());
    }
    Ok(SdpAttributeGroup { semantics: semantics, tags: tags })
}

fn parse_msid_value(v: &str) -> (r: Result<SdpAttributeMsid, SdpParserError>)
    ensures
        r matches Ok(m) ==> msid_outcome(v@) is None && m.id@ == split_ws(v@)[0] && (if split_ws(
            v@,
        ).len() >= 2 {
            m.appdata is Some && m.appdata->0@ == split_ws(v@)[1]
        } else {
            m.appdata is None
        }),
        r matches Err(e) ==> msid_outcome(v@) == Some(e.kind()),
{
    let toks = crate::strutil::split_whitespace_vec(v);
    if toks.len() == 0 {
        return Err(malformed("Msid attribute is missing msid-id token", v));
    }
    proof {
        assert(toks.deep_view()[0] == toks@[0]@);
    }
    let appdata = if toks.len() >= 2 {
        proof {
            assert(toks.deep_view()[1] == toks@[1]@);
        }
        Some(toks[1].clone())
    } else {
        None
    };
    Ok(SdpAttributeMsid { id: toks[0].clone(), appdata: appdata })
}

fn parse_rtcp_value(v: &str) -> (r: Result<SdpAttributeRtcp, SdpParserError>)
    ensures
        r matches Ok(x) ==> rtcp_outcome(v@) is None && rtcp_matches(v@, x),
        r matches Err(e) ==> rtcp_outcome(v@) == Some(e.kind()),
{
    let toks = crate::strutil::split_whitespace_vec(v);
    if toks.len() != 4 {
        return Err(malformed("Rtcp needs to have four tokens", v));
    }
    proof {
        assert(toks.deep_view()[0] == toks@[0]@);
        assert(toks.deep_view()[1] == toks@[1]@);
        assert(toks.deep_view()[2] == toks@[2]@);
        assert(toks.deep_view()[3] == toks@[3]@);
    }
    let port = match crate::strutil::parse_u32(toks[0].as_str()) {
        None => {
            return Err(malformed("Rtcp port is not a number", v));
        },
        Some(x) => x,
    };
    if port > 65535 {
        return Err(malformed("Rtcp port can only be a bit 16bit number", v));
    }
    let nettype = match crate::network::parse_nettype(toks[1].as_str()) {
        Err(e) => {
            return Err(e);
        },
        Ok(x) => x,
    };
    let addrtype = match crate::network::parse_addrtype(toks[2].as_str()) {
        Err(e) => {
            return Err(e);
        },
        Ok(x) => x,
    };
    let unicast_addr = match crate::network::parse_unicast_addr(&addrtype, toks[3].as_str()) {
        Err(e) => {
            return Err(e);
        },
        Ok(x) => x,
    };
    Ok(
        SdpAttributeRtcp {
            port: port,
            nettype: nettype,
            addrtype: addrtype,
            unicast_addr: unicast_addr,
        },
    )
}

fn parse_rtcpfb_value(v: &str) -> (r: Result<SdpAttributeRtcpFb, SdpParserError>)
    ensures
        r matches Ok(x) ==> rtcpfb_outcome(v@) is None && Some(x.payload_type) == u32_from_str(
            split_ws_once(v@).0,
        ) && x.feedback_type@ == split_ws_once(v@).1,
        r matches Err(e) ==> rtcpfb_outcome(v@) == Some(e.kind()),
{
    match crate::strutil::split_first_ws_run(v) {
        None => Err(malformed("Rtcp-fb needs to have two tokens", v)),
        Some(parts) => {
            match crate::strutil::parse_u32(parts.0.as_str()) {
                None => Err(malformed("Rtcp-fb payload type is not a number", v)),
                Some(pt) => Ok(SdpAttributeRtcpFb { payload_type: pt, feedback_type: parts.1 }),
            }
        },
    }
}

fn parse_rtpmap_value(v: &str) -> (r: Result<SdpAttributeRtpmap, SdpParserError>)
    ensures
        r matches Ok(x) ==> rtpmap_outcome(v@) is None && rtpmap_matches(v@, x),
        r matches Err(e) ==> rtpmap_outcome(v@) == Some(e.kind()),
{
    let toks = crate::strutil::split_whitespace_vec(v);
    if toks.len() != 2 {
        return Err(malformed("Rtpmap needs to have two tokens", v));
    }
    proof {
        assert(toks.deep_view()[0] == toks@[0]@);
        assert(toks.deep_view()[1] == toks@[1]@);
    }
    let pt = match crate::strutil::parse_u32(toks[0].as_str()) {
        None => {
            return Err(malformed("Rtpmap payload type is not a number", v));
        },
        Some(x) => x,
    };
    let parts = crate::strutil::split_char_vec(toks[1].as_str(), '/');
    if parts.len() > 3 {
        return Err(malformed("Rtpmap codec token can max 3 subtokens", v));
    }
    proof {
        assert(parts.deep_view()[0] == parts@[0]@);
    }
    let mut rtpmap = SdpAttributeRtpmap::new(pt, parts[0].clone());
    if parts.len() > 1 {
        proof {
            assert(parts.deep_view()[1] == parts@[1]@);
        }
        match crate::strutil::parse_u32(parts[1].as_str()) {
            None => {
                return Err(malformed("Rtpmap frequency is not a number", v));
            },
            Some(f) => rtpmap.set_frequency(f),
        }
    }
    if parts.len() > 2 {
        proof {
            assert(parts.deep_view()[2] == parts@[2]@);
        }
        match crate::strutil::parse_u32(parts[2].as_str()) {
            None => {
                return Err(malformed("Rtpmap channels is not a number", v));
            },
            Some(c) => rtpmap.set_channels(c),
        }
    }
    Ok(rtpmap)
}

fn parse_sctpmap_value(v: &str) -> (r: Result<SdpAttributeSctpmap, SdpParserError>)
    ensures
        r matches Ok(x) ==> sctpmap_outcome(v@) is None && Some(x.port) == u32_from_str(
            split_ws(v@)[0],
        ) && Some(x.channels) == u32_from_str(split_ws(v@)[2]),
        r matches Err(e) ==> sctpmap_outcome(v@) == Some(e.kind()),
{
    let toks = crate::strutil::split_whitespace_vec(v);
    if toks.len() != 3 {
        return Err(malformed("Sctpmap needs to have three tokens", v));
    }
    proof {
        assert(toks.deep_view()[0] == toks@[0]@);
        assert(toks.deep_view()[1] == toks@[1]@);
        assert(toks.deep_view()[2] == toks@[2]@);
    }
    let port = match crate::strutil::parse_u32(toks[0].as_str()) {
        None => {
            return Err(malformed("Sctpmap port is not a number", v));
        },
        Some(x) => x,
    };
    if port > 65535 {
        return Err(malformed("Sctpmap port can only be a bit 16bit number", v));
    }
    if !eq_ignore_case(toks[1].as_str(), "webrtc-datachannel") {
        return Err(malformed("Unsupported sctpmap type token", v));
    }
    let channels = match crate::strutil::parse_u32(toks[2].as_str()) {
        None => {
            return Err(malformed("Sctpmap channels is not a number", v));
        },
        Some(x) => x,
    };
    Ok(SdpAttributeSctpmap { port: port, channels: channels })
}

fn parse_setup_value(v: &str) -> (r: Result<SdpAttributeSetup, SdpParserError>)
    ensures
        r matches Ok(x) ==> setup_outcome(v@) is None && Some(x) == setup_of(v@),
        r matches Err(e) ==> setup_outcome(v@) == Some(e.kind()),
{
    if eq_ignore_case(v, "active") {
        Ok(SdpAttributeSetup::Active)
    } else if eq_ignore_case(v, "actpass") {
        Ok(SdpAttributeSetup::Actpass)
    } else if eq_ignore_case(v, "holdconn") {
        Ok(SdpAttributeSetup::Holdconn)
    } else if eq_ignore_case(v, "passive") {
        Ok(SdpAttributeSetup::Passive)
    } else {
        Err(malformed("Unsupported setup value", v))
    }
}

fn parse_ssrc_value(v: &str) -> (r: Result<SdpAttributeSsrc, SdpParserError>)
    ensures
        r matches Ok(x) ==> ssrc_outcome(v@) is None && ssrc_matches(v@, x),
        r matches Err(e) ==> ssrc_outcome(v@) == Some(e.kind()),
{
    let toks = crate::strutil::split_whitespace_vec(v);
    if toks.len() == 0 {
        return Err(malformed("Ssrc attribute is missing ssrc-id value", v));
    }
    proof {
        assert(toks.deep_view()[0] == toks@[0]@);
    }
    let id = match crate::strutil::parse_u32(toks[0].as_str()) {
        None => {
            return Err(malformed("Ssrc id is not a number", v));
        },
        Some(x) => x,
    };
    let mut ssrc = SdpAttributeSsrc::new(id);
    if toks.len() > 1 {
        proof {
            assert(toks.deep_view()[1] == toks@[1]@);
        }
        ssrc.set_attribute(toks[1].as_str());
    }
    Ok(ssrc)
}

} // verus!

verus! {

fn parse_candidate_value(v: &str) -> (r: Result<SdpAttributeCandidate, SdpParserError>)
    ensures
        r matches Ok(c) ==> candidate_outcome(v@) is None && candidate_matches(v@, c),
        r matches Err(e) ==> candidate_outcome(v@) == Some(e.kind()),
{
    let toks = crate::strutil::split_whitespace_vec(v);
    let ghost tm = toks.deep_view();
    if toks.len() < 8 {
        return Err(malformed("Candidate needs to have minimum eight tokens", v));
    }
    proof {
        assert(tm[0] == toks@[0]@);
        assert(tm[1] == toks@[1]@);
        assert(tm[2] == toks@[2]@);
        assert(tm[3] == toks@[3]@);
        assert(tm[4] == toks@[4]@);
        assert(tm[5] == toks@[5]@);
        assert(tm[6] == toks@[6]@);
        assert(tm[7] == toks@[7]@);
    }
    let component = match crate::strutil::parse_u32(toks[1].as_str()) {
        None => {
            return Err(malformed("Candidate component is not a number", v));
        },
        Some(x) => x,
    };
    let transport = if eq_ignore_case(toks[2].as_str(), "udp") {
        SdpAttributeCandidateTransport::Udp
    } else if eq_ignore_case(toks[2].as_str(), "tcp") {
        SdpAttributeCandidateTransport::Tcp
    } else {
        return Err(malformed("Unknown candidate transport value", v));
    };
    let priority = match crate::strutil::parse_u64(toks[3].as_str()) {
        None => {
            return Err(malformed("Candidate priority is not a number", v));
        },
        Some(x) => x,
    };
    let address = match crate::network::parse_unicast_addr_unknown_type(toks[4].as_str()) {
        Err(e) => {
            return Err(e);
        },
        Ok(x) => x,
    };
    let port = match crate::strutil::parse_u32(toks[5].as_str()) {
        None => {
            return Err(malformed("Candidate port is not a number", v));
        },
        Some(x) => x,
    };
    if port > 65535 {
        return Err(malformed("ICE candidate port can only be a bit 16bit number", v));
    }
    if !eq_ignore_case(toks[6].as_str(), "typ") {
        return Err(malformed("Candidate attribute token must be 'typ'", v));
    }
    let cand_type = if eq_ignore_case(toks[7].as_str(), "host") {
        SdpAttributeCandidateType::Host
    } else if eq_ignore_case(toks[7].as_str(), "srflx") {
        SdpAttributeCandidateType::Srflx
    } else if eq_ignore_case(toks[7].as_str(), "prflx") {
        SdpAttributeCandidateType::Prflx
    } else if eq_ignore_case(toks[7].as_str(), "relay") {
        SdpAttributeCandidateType::Relay
    } else {
        return Err(malformed("Unknown candidate type value", v));
    };
    let mut cand = SdpAttributeCandidate::new(
        toks[0].clone(),
        component,
        transport,
        priority,
        address,
        port,
        cand_type,
    );
    let ghost mut st = no_extensions();
    let mut index: usize = 8;
    while index < toks.len() && index + 1 < toks.len()
        invariant
            8 <= index,
            tm == toks.deep_view(),
            tm == split_ws(v@),
            tm.len() >= 8,
            cand.foundation@ == tm[0],
            Some(cand.component) == u32_from_str(tm[1]),
            Some(cand.transport) == transport_of(tm[2]),
            Some(cand.priority) == u64_from_str(tm[3]),
            crate::network::addr_matches(cand.address, tm[4]),
            Some(cand.port) == u32_from_str(tm[5]),
            u32_from_str(tm[5])->0 <= 65535,
            ci_eq(tm[6], "typ"@),
            Some(cand.c_type) == cand_type_of(tm[7]),
            match (cand.raddr, st.raddr) {
                (None, None) => true,
                (Some(a), Some(t)) => crate::network::addr_matches(a, t),
                _ => false,
            },
            cand.rport == st.rport,
            cand.tcp_type == st.tcp_type,
            cand_ext_step(tm, 8, no_extensions()) == cand_ext_step(tm, index as int, st),
        decreases toks@.len() - index,
    {
        proof {
            assert(tm[index as int] == toks@[index as int]@);
            assert(tm[index as int + 1] == toks@[index as int + 1]@);
        }
        if eq_ignore_case(toks[index].as_str(), "raddr") {
            match crate::network::parse_unicast_addr_unknown_type(toks[index + 1].as_str()) {
                Err(e) => {
                    return Err(e);
                },
                Ok(addr) => {
                    cand.set_remote_address(addr);
                    proof {
                        st =
                        CandidateExtensions {
                            raddr: Some(tm[index as int + 1]),
                            rport: st.rport,
                            tcp_type: st.tcp_type,
                        };
                    }
                },
            }
        } else if eq_ignore_case(toks[index].as_str(), "rport") {
            let rport = match crate::strutil::parse_u32(toks[index + 1].as_str()) {
                None => {
                    return Err(malformed("Candidate rport is not a number", v));
                },
                Some(x) => x,
            };
            if rport > 65535 {
                return Err(malformed("ICE candidate rport can only be a bit 16bit number", v));
            }
            cand.set_remote_port(rport);
            proof {
                st =
                CandidateExtensions {
                    raddr: st.raddr,
                    rport: Some(rport),
                    tcp_type: st.tcp_type,
                };
            }
        } else if eq_ignore_case(toks[index].as_str(), "tcptype") {
            let t = if eq_ignore_case(toks[index + 1].as_str(), "active") {
                SdpAttributeCandidateTcpType::Active
            } else if eq_ignore_case(toks[index + 1].as_str(), "passive") {
                SdpAttributeCandidateTcpType::Passive
            } else if eq_ignore_case(toks[index + 1].as_str(), "so") {
                SdpAttributeCandidateTcpType::Simultaneous
            } else {
                return Err(malformed("Unknown tcptype value in candidate line", v));
            };
            cand.set_tcp_type(t);
            proof {
                st =
                CandidateExtensions {
                    raddr: st.raddr,
                    rport: st.rport,
                    tcp_type: Some(t),
                };
            }
        } else {
            return Err(unsupported("Unknown candidate extension name", v));
        }
        index += 2;
    }
    Ok(cand)
}

fn parse_simulcast_value(v: &str) -> (r: Result<SdpAttributeSimulcast, SdpParserError>)
    ensures
        r matches Ok(sc) ==> simulcast_outcome(v@) is None && simulcast_matches(v@, sc),
        r matches Err(e) ==> simulcast_outcome(v@) == Some(e.kind()),
{
    let toks = crate::strutil::split_whitespace_vec(v);
    let ghost tm = toks.deep_view();
    if toks.len() == 0 {
        return Err(malformed("Simulcast attribute is missing send/recv value", v));
    }
    let mut sc = SdpAttributeSimulcast { send: Vec::new(), receive: Vec::new() };
    let ghost mut st = no_lists();
    let mut i: usize = 0;
    while i < toks.len()
        invariant
            0 <= i,
            tm == toks.deep_view(),
            tm == split_ws(v@),
            tm.len() > 0,
            match st.send_list {
                None => sc.send@.len() == 0,
                Some(l) => sim_alts_match(sc.send@, l),
            },
            match st.recv_list {
                None => sc.receive@.len() == 0,
                Some(l) => sim_alts_match(sc.receive@, l),
            },
            simulcast_step(tm, 0, no_lists()) == simulcast_step(tm, i as int, st),
        decreases toks@.len() - i,
    {
        proof {
            assert(tm[i as int] == toks@[i as int]@);
        }
        let send_dir = if eq_ignore_case(toks[i].as_str(), "send") {
            true
        } else if eq_ignore_case(toks[i].as_str(), "recv") {
            false
        } else {
            return Err(
                malformed("Unsupported send/recv value in simulcast attribute", v),
            );
        };
        if i + 1 >= toks.len() {
            return Err(malformed("Simulcast attribute is missing id list", v));
        }
        proof {
            assert(tm[i as int + 1] == toks@[i as int + 1]@);
        }
        let alts = parse_simulcast_alternatives(toks[i + 1].as_str());
        if send_dir {
            sc.send = alts;
            proof {
                st = SimulcastLists { send_list: Some(tm[i as int + 1]), recv_list: st.recv_list };
            }
        } else {
            sc.receive = alts;
            proof {
                st = SimulcastLists { send_list: st.send_list, recv_list: Some(tm[i as int + 1]) };
            }
        }
        i += 2;
    }
    Ok(sc)
}

} // verus!

verus! {

use crate::strutil::trim_spec;

impl SdpAttribute {
    /// An attribute of the given kind with no payload parsed yet.
    pub fn new(t: SdpAttributeType) -> (r: SdpAttribute)
        ensures
            r.name == t,
            r.value is None,
    {
        SdpAttribute { name: t, value: None }
    }

    /// Applies the kind's payload grammar to `v`: on success the payload
    /// slot holds exactly what [`value_matches`] describes, on failure the
    /// attribute is unchanged and the diagnostic severity is exactly what
    /// [`value_outcome`] names.
    pub fn parse_value(&mut self, v: &str) -> (r: Result<(), SdpParserError>)
        ensures
            final(self).name == old(self).name,
            r is Ok <==> value_outcome(old(self).name, v@) is None,
            r is Ok ==> value_matches(old(self).name, v@, old(self).value, final(self).value),
            r matches Err(e) ==> Some(e.kind()) == value_outcome(old(self).name, v@) && *final(self)
                == *old(self),
    {
        match self.name {
            SdpAttributeType::BundleOnly
            | SdpAttributeType::EndOfCandidates
            | SdpAttributeType::IceLite
            | SdpAttributeType::Inactive
            | SdpAttributeType::Recvonly
            | SdpAttributeType::RtcpMux
            | SdpAttributeType::RtcpRsize
            | SdpAttributeType::Sendonly
            | SdpAttributeType::Sendrecv => {
                if v.unicode_len() > 0 {
                    return Err(malformed("This attribute is not allowed to have a value", v));
                }
            },
            SdpAttributeType::IcePwd
            | SdpAttributeType::IceUfrag
            | SdpAttributeType::Mid
            | SdpAttributeType::Rid
            | SdpAttributeType::MsidSemantic
            | SdpAttributeType::SsrcGroup => {
                self.value = Some(SdpAttributeValue::Str { value: String::from_str(v) });
            },
            SdpAttributeType::IceOptions => {
                self.value = Some(
                    SdpAttributeValue::Vector { value: crate::strutil::split_whitespace_vec(v) },
                );
            },
            SdpAttributeType::SctpPort => {
                let port = match crate::strutil::parse_u32(v) {
                    None => {
                        return Err(malformed("Sctpport port is not a number", v));
                    },
                    Some(x) => x,
                };
                if port > 65535 {
                    return Err(malformed("Sctpport port can only be a bit 16bit number", v));
                }
                self.value = Some(SdpAttributeValue::Int { value: port });
            },
            SdpAttributeType::Candidate => {
                match parse_candidate_value(v) {
                    Err(e) => {
                        return Err(e);
                    },
                    Ok(c) => {
                        self.value = Some(SdpAttributeValue::Candidate { value: c });
                    },
                }
            },
            SdpAttributeType::Extmap => {
                match parse_extmap_value(v) {
                    Err(e) => {
                        return Err(e);
                    },
                    Ok(x) => {
                        self.value = Some(SdpAttributeValue::Extmap { value: x });
                    },
                }
            },
            SdpAttributeType::Fingerprint => {
                match parse_fingerprint_value(v) {
                    Err(e) => {
                        return Err(e);
                    },
                    Ok(x) => {
                        self.value = Some(SdpAttributeValue::Fingerprint { value: x });
                    },
                }
            },
            SdpAttributeType::Fmtp => {
                match parse_fmtp_value(v) {
                    Err(e) => {
                        return Err(e);
                    },
                    Ok(x) => {
                        self.value = Some(SdpAttributeValue::Fmtp { value: x });
                    },
                }
            },
            SdpAttributeType::Group => {
                match parse_group_value(v) {
                    Err(e) => {
                        return Err(e);
                    },
                    Ok(x) => {
                        self.value = Some(SdpAttributeValue::Group { value: x });
                    },
                }
            },
            SdpAttributeType::Msid => {
                match parse_msid_value(v) {
                    Err(e) => {
                        return Err(e);
                    },
                    Ok(x) => {
                        self.value = Some(SdpAttributeValue::Msid { value: x });
                    },
                }
            },
            SdpAttributeType::Rtcp => {
                match parse_rtcp_value(v) {
                    Err(e) => {
                        return Err(e);
                    },
                    Ok(x) => {
                        self.value = Some(SdpAttributeValue::Rtcp { value: x });
                    },
                }
            },
            SdpAttributeType::RtcpFb => {
                match parse_rtcpfb_value(v) {
                    Err(e) => {
                        return Err(e);
                    },
                    Ok(x) => {
                        self.value = Some(SdpAttributeValue::Rtcpfb { value: x });
                    },
                }
            },
            SdpAttributeType::Rtpmap => {
                match parse_rtpmap_value(v) {
                    Err(e) => {
                        return Err(e);
                    },
                    Ok(x) => {
                        self.value = Some(SdpAttributeValue::Rtpmap { value: x });
                    },
                }
            },
            SdpAttributeType::Sctpmap => {
                match parse_sctpmap_value(v) {
                    Err(e) => {
                        return Err(e);
                    },
                    Ok(x) => {
                        self.value = Some(SdpAttributeValue::Sctpmap { value: x });
                    },
                }
            },
            SdpAttributeType::Setup => {
                match parse_setup_value(v) {
                    Err(e) => {
                        return Err(e);
                    },
                    Ok(x) => {
                        self.value = Some(SdpAttributeValue::Setup { value: x });
                    },
                }
            },
            SdpAttributeType::Simulcast => {
                match parse_simulcast_value(v) {
                    Err(e) => {
                        return Err(e);
                    },
                    Ok(x) => {
                        self.value = Some(SdpAttributeValue::Simulcast { value: x });
                    },
                }
            },
            SdpAttributeType::Ssrc => {
                match parse_ssrc_value(v) {
                    Err(e) => {
                        return Err(e);
                    },
                    Ok(x) => {
                        self.value = Some(SdpAttributeValue::Ssrc { value: x });
                    },
                }
            },
        }
        Ok(())
    }
}

/// The keyword of an attribute line: the text before the first `:`, or
/// the whole line when no `:` is present.
pub open spec fn line_keyword(line: Seq<char>) -> Seq<char> {
    split_first_on(line, ':')[0]
}

/// The payload of an attribute line: the whitespace-trimmed text after
/// the first `:`, or empty when no `:` is present.
pub open spec fn line_payload(line: Seq<char>) -> Seq<char> {
    if has_char(line, ':') {
        trim_spec(split_first_on(line, ':')[1])
    } else {
        Seq::empty()
    }
}

/// Parses one whole attribute line (the text after `a=`): classifies the
/// keyword, applies that kind's payload grammar to the trimmed payload,
/// and returns the populated attribute or the precise diagnostic.
pub fn parse_attribute(value: &str) -> (r: Result<SdpAttribute, SdpParserError>)
    ensures
        match kind_of_keyword(line_keyword(value@)) {
            None => (r matches Err(e) && e.kind() is Unsupported && e.offending() == line_keyword(
                value@,
            )),
            Some(k) => match value_outcome(k, line_payload(value@)) {
                Some(ek) => (r matches Err(e) && e.kind() == ek),
                None => (r matches Ok(a) && a.name == k && value_matches(
                    k,
                    line_payload(value@),
                    None,
                    a.value,
                )),
            },
        },
{
    let parts = crate::strutil::split_first_char_vec(value, ':');
    proof {
        assert(parts.deep_view()[0] == parts@[0]@);
        if crate::strutil::has_char(value@, ':') {
            assert(crate::strutil::split_first_on(value@, ':').len() == 2);
            assert(parts.deep_view()[1] == parts@[1]@);
        } else {
            assert(crate::strutil::split_first_on(value@, ':').len() == 1);
        }
    }
    let val: String = if parts.len() == 2 {
        crate::strutil::trim_str(parts[1].as_str())
    } else {
        String::new()
    };
    let attrtype = match parse_attribute_kind(parts[0].as_str()) {
        Err(e) => {
            return Err(e);
        },
        Ok(k) => k,
    };
    let mut attr = SdpAttribute::new(attrtype);
    match attr.parse_value(val.as_str()) {
        Err(e) => Err(e),
        Ok(()) => Ok(attr),
    }
}

/// Every flag kind accepts exactly the empty payload and rejects any
/// other payload as the hard failure.
pub proof fn lemma_flag_payload(k: SdpAttributeType, v: Seq<char>)
    requires
        is_flag_kind(k),
    ensures
        v.len() == 0 ==> value_outcome(k, v) is None,
        v.len() > 0 ==> value_outcome(k, v) == Some(SdpErrorKind::Malformed),
{
}

} // verus!
