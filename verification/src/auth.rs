//! Answering a digest challenge.
//!
//! The challenge is read and the digest is computed by the `rsip` crate;
//! the library decides whether the challenge can be answered and puts the
//! answer into the request.

use crate::dialog::{header_of, Credential, CredentialView};
use crate::error::{Error, ErrorView};
use crate::message::{
    header_value, headers_view, method_name, replace_first, set_first, Header, HeaderView,
    Request, RequestView, Response, ResponseView,
};
use crate::typed::{cseq_with_number_of, write_cseq_number};
use rsip::headers::auth;
use vstd::prelude::*;

verus! {

/// The hash that a digest is computed with.
#[derive(Clone, Copy, Debug, PartialEq, Eq, Structural)]
pub enum Algorithm {
    Md5,
    Md5Sess,
}

/// The quality of protection that a challenge demands.
#[derive(Clone, Copy, Debug, PartialEq, Eq, Structural)]
pub enum Qop {
    Auth,
    AuthInt,
}

/// The quality of protection of an answer, with the client's nonce and
/// the nonce count.
#[derive(Clone, Debug, PartialEq, Eq)]
pub enum AuthQop {
    Auth { cnonce: String, nc: u8 },
    AuthInt { cnonce: String, nc: u8 },
}

/// What an [`AuthQop`] is in contracts.
pub enum AuthQopView {
    Auth { cnonce: Seq<char>, nc: u8 },
    AuthInt { cnonce: Seq<char>, nc: u8 },
}

impl View for AuthQop {
    type V = AuthQopView;

    open spec fn view(&self) -> AuthQopView {
        match self {
            AuthQop::Auth { cnonce, nc } => AuthQopView::Auth { cnonce: cnonce@, nc: *nc },
            AuthQop::AuthInt { cnonce, nc } => AuthQopView::AuthInt { cnonce: cnonce@, nc: *nc },
        }
    }
}

/// The view of a quality of protection that may be absent.
pub open spec fn auth_qop_view(q: Option<AuthQop>) -> Option<AuthQopView> {
    match q {
        Some(q) => Some(q@),
        None => None,
    }
}

/// A challenge as `rsip` has read it, with scheme, algorithm and quality of
/// protection as `rsip` prints them.
#[derive(Clone, Debug, PartialEq, Eq)]
pub struct Challenge {
    pub scheme: String,
    pub realm: String,
    pub nonce: String,
    pub opaque: Option<String>,
    pub algorithm: Option<String>,
    pub qop: Option<String>,
}

/// What a [`Challenge`] is in contracts.
pub struct ChallengeView {
    pub scheme: Seq<char>,
    pub realm: Seq<char>,
    pub nonce: Seq<char>,
    pub opaque: Option<Seq<char>>,
    pub algorithm: Option<Seq<char>>,
    pub qop: Option<Seq<char>>,
}

impl View for Challenge {
    type V = ChallengeView;

    open spec fn view(&self) -> ChallengeView {
        ChallengeView {
            scheme: self.scheme@,
            realm: self.realm@,
            nonce: self.nonce@,
            opaque: crate::dialog::text_view(self.opaque),
            algorithm: crate::dialog::text_view(self.algorithm),
            qop: crate::dialog::text_view(self.qop),
        }
    }
}

/// What a digest is computed from.
pub struct DigestQuery {
    pub username: Seq<char>,
    pub password: Seq<char>,
    pub realm: Seq<char>,
    pub nonce: Seq<char>,
    /// The name of the request's method.
    pub method: Seq<char>,
    pub uri: Seq<char>,
    pub algorithm: Algorithm,
    pub qop: Option<AuthQopView>,
}

/// The challenge that `rsip` reads from the value of a `WWW-Authenticate`
/// or `Proxy-Authenticate` header, or `None` where it reads none.
pub uninterp spec fn challenge_of(value: Seq<char>) -> Option<ChallengeView>;

/// The digest that `rsip` computes, in hexadecimal, or `None` where `rsip`
/// cannot read the method or the URI.
pub uninterp spec fn digest_of(q: DigestQuery) -> Option<Seq<char>>;

/// Makes a `rsip::typed::WwwAuthenticate` of a header with the given value
/// and copies its fields out, printing scheme, algorithm and quality of
/// protection. `None` stands for the error that `rsip` returned.
#[verifier::external_body]
pub(crate) fn read_challenge(value: &str) -> (r: Option<Challenge>)
    ensures
        match r {
            Some(c) => challenge_of(value@) == Some(c@),
            None => challenge_of(value@).is_none(),
        },
{
    let c = rsip::typed::WwwAuthenticate::try_from(rsip::headers::WwwAuthenticate::from(value)).ok()?;
    Some(Challenge {
        scheme: c.scheme.to_string(),
        realm: c.realm,
        nonce: c.nonce,
        opaque: c.opaque,
        algorithm: c.algorithm.map(|a| a.to_string()),
        qop: c.qop.map(|q| q.to_string()),
    })
}

/// Calls `rsip::services::DigestGenerator::compute` on a generator with
/// the given fields. `None` stands for the error that `rsip` returned for
/// the method or the URI.
#[verifier::external_body]
pub(crate) fn compute_digest(
    username: &str,
    password: &str,
    realm: &str,
    nonce: &str,
    method: &str,
    uri: &str,
    algorithm: Algorithm,
    qop: &Option<AuthQop>,
) -> (r: Option<String>)
    ensures
        match r {
            Some(d) => digest_of(
                DigestQuery {
                    username: username@,
                    password: password@,
                    realm: realm@,
                    nonce: nonce@,
                    method: method@,
                    uri: uri@,
                    algorithm,
                    qop: auth_qop_view(*qop),
                },
            ) == Some(d@),
            None => digest_of(
                DigestQuery {
                    username: username@,
                    password: password@,
                    realm: realm@,
                    nonce: nonce@,
                    method: method@,
                    uri: uri@,
                    algorithm,
                    qop: auth_qop_view(*qop),
                },
            ).is_none(),
        },
{
    let uri = &rsip::Uri::try_from(uri).ok()?;
    let method = &method.parse::<rsip::Method>().ok()?;
    let qop = qop.clone().map(|k| match k {
        AuthQop::Auth { cnonce, nc } => auth::AuthQop::Auth { cnonce, nc },
        AuthQop::AuthInt { cnonce, nc } => auth::AuthQop::AuthInt { cnonce, nc },
    });
    let algorithm = match algorithm {
        Algorithm::Md5 => auth::Algorithm::Md5,
        Algorithm::Md5Sess => auth::Algorithm::Md5Sess,
    };
    let qop = qop.as_ref();
    Some(rsip::services::DigestGenerator { username, password, nonce, uri, realm, method, qop, algorithm }.compute())
}

/// The algorithm that a challenge names: MD5 where it names none.
pub open spec fn algorithm_named(name: Option<Seq<char>>) -> Option<Algorithm> {
    match name {
        None => Some(Algorithm::Md5),
        Some(n) => if n == "MD5"@ {
            Some(Algorithm::Md5)
        } else if n == "MD5-sess"@ {
            Some(Algorithm::Md5Sess)
        } else {
            None
        },
    }
}

/// The quality of protection that a challenge names.
pub open spec fn qop_named(name: Option<Seq<char>>) -> Option<Option<Qop>> {
    match name {
        None => Some(None),
        Some(n) => if n == "auth"@ {
            Some(Some(Qop::Auth))
        } else if n == "auth-int"@ {
            Some(Some(Qop::AuthInt))
        } else {
            None
        },
    }
}

/// The name of an algorithm.
pub open spec fn algorithm_name(a: Algorithm) -> Seq<char> {
    match a {
        Algorithm::Md5 => "MD5"@,
        Algorithm::Md5Sess => "MD5-sess"@,
    }
}

/// The header of a response that holds its challenge: the first
/// `WWW-Authenticate`, else the first `Proxy-Authenticate`.
pub open spec fn challenge_header(resp: ResponseView) -> Option<HeaderView> {
    match header_value(resp.headers, "WWW-Authenticate"@) {
        Some(v) => Some(header_of("WWW-Authenticate"@, v)),
        None => match header_value(resp.headers, "Proxy-Authenticate"@) {
            Some(v) => Some(header_of("Proxy-Authenticate"@, v)),
            None => None,
        },
    }
}

/// The name of the header that answers a challenge header.
pub open spec fn answer_name(challenge_name: Seq<char>) -> Seq<char> {
    if challenge_name == "WWW-Authenticate"@ {
        "Authorization"@
    } else {
        "Proxy-Authorization"@
    }
}

/// The name is that of a header of the authentication exchange.
pub open spec fn is_auth_name(name: Seq<char>) -> bool {
    name == "Authorization"@ || name == "Proxy-Authorization"@ || name == "WWW-Authenticate"@
        || name == "Proxy-Authenticate"@
}

/// The first `n` headers of `hs` without those of the authentication
/// exchange.
pub open spec fn without_auth(hs: Seq<HeaderView>, n: int) -> Seq<HeaderView>
    decreases n,
{
    if n <= 0 || n > hs.len() {
        Seq::empty()
    } else if is_auth_name(hs[n - 1].name) {
        without_auth(hs, n - 1)
    } else {
        without_auth(hs, n - 1).push(hs[n - 1])
    }
}

/// The quality of protection of the answer to a challenge that demands
/// `qop`: the client's nonce is `cnonce` and the nonce count is 1.
pub open spec fn answer_qop(qop: Option<Qop>, cnonce: Seq<char>) -> Option<AuthQopView> {
    match qop {
        Some(Qop::Auth) => Some(AuthQopView::Auth { cnonce, nc: 1 }),
        Some(Qop::AuthInt) => Some(AuthQopView::AuthInt { cnonce, nc: 1 }),
        None => None,
    }
}

/// What the digest of the answer to a challenge is computed from.
pub open spec fn query_of(
    credential: CredentialView,
    challenge: ChallengeView,
    original: RequestView,
    algorithm: Algorithm,
    qop: Option<Qop>,
    cnonce: Seq<char>,
) -> DigestQuery {
    DigestQuery {
        username: credential.username,
        password: credential.password,
        realm: challenge.realm,
        nonce: challenge.nonce,
        method: method_name(original.method),
        uri: original.uri,
        algorithm,
        qop: answer_qop(qop, cnonce),
    }
}

/// The value of the header that answers a challenge: scheme, user name,
/// realm, nonce, URI, digest and algorithm, then the challenge's opaque
/// text where it has one, then the quality of protection where the
/// challenge demands one. The nonce count is written as 1.
pub open spec fn answer_value(
    username: Seq<char>,
    uri: Seq<char>,
    algorithm: Algorithm,
    qop: Option<AuthQopView>,
    challenge: ChallengeView,
    digest: Seq<char>,
) -> Seq<char> {
    challenge.scheme + " username=\""@ + username + "\", realm=\""@ + challenge.realm
        + "\", nonce=\""@ + challenge.nonce + "\", uri=\""@ + uri + "\", response=\""@ + digest
        + "\", algorithm="@ + algorithm_name(algorithm) + (match challenge.opaque {
        Some(o) => ", opaque=\""@ + o + "\""@,
        None => Seq::empty(),
    }) + (match qop {
        Some(AuthQopView::Auth { cnonce, .. }) => ", qop=\"auth\", nc=00000001, cnonce=\""@
            + cnonce + "\""@,
        Some(AuthQopView::AuthInt { cnonce, .. }) => ", qop=\"auth-int\", nc=00000001, cnonce=\""@
            + cnonce + "\""@,
        None => Seq::empty(),
    })
}

/// The request that answers the challenge in `resp`, or the error that
/// says why the challenge cannot be answered.
///
/// The request is `original` under the sequence number `seq`, without the
/// headers of earlier authentication exchanges and with the answer as its
/// last header. A challenge can be answered where it is well formed, its
/// realm is the one the credential is for, and it asks for MD5 or MD5-sess.
pub open spec fn authorized(
    original: RequestView,
    resp: ResponseView,
    credential: CredentialView,
    seq: u32,
    cnonce: Seq<char>,
) -> Result<RequestView, ErrorView> {
    match challenge_header(resp) {
        None => Err(ErrorView::AuthError("missing proxy/www authenticate"@)),
        Some(h) => match challenge_of(h.value) {
            None => Err(ErrorView::AuthError("invalid challenge"@)),
            Some(c) => if credential.realm is Some && credential.realm != Some(c.realm) {
                Err(ErrorView::AuthError("no credential for the realm"@))
            } else {
                match (algorithm_named(c.algorithm), qop_named(c.qop)) {
                    (None, _) => Err(ErrorView::AuthError("unsupported algorithm"@)),
                    (Some(_), None) => Err(ErrorView::AuthError("unsupported qop"@)),
                    (Some(algorithm), Some(qop)) => {
                        let q = query_of(credential, c, original, algorithm, qop, cnonce);
                        match digest_of(q) {
                            None => Err(ErrorView::AuthError("cannot compute the digest"@)),
                            Some(digest) => match header_value(original.headers, "CSeq"@) {
                                None => Err(ErrorView::ParseError("missing header: CSeq"@)),
                                Some(v) => match cseq_with_number_of(v, seq) {
                                    None => Err(ErrorView::ParseError("invalid header: CSeq"@)),
                                    Some(cseq) => Ok(
                                        RequestView {
                                            headers: without_auth(
                                                replace_first(original.headers, "CSeq"@, cseq),
                                                original.headers.len() as int,
                                            ).push(
                                                header_of(
                                                    answer_name(h.name),
                                                    answer_value(
                                                        q.username,
                                                        q.uri,
                                                        q.algorithm,
                                                        q.qop,
                                                        c,
                                                        digest,
                                                    ),
                                                ),
                                            ),
                                            ..original
                                        },
                                    ),
                                },
                            },
                        }
                    },
                }
            },
        },
    }
}

fn text_is(a: &str, b: &str) -> (r: bool)
    ensures
        r == (a@ == b@),
{
    a.to_owned() == b.to_owned()
}

fn algorithm_from(name: &Option<String>) -> (r: Option<Algorithm>)
    ensures
        r == algorithm_named(crate::dialog::text_view(*name)),
{
    match name {
        None => Some(Algorithm::Md5),
        Some(n) => if text_is(n.as_str(), "MD5") {
            Some(Algorithm::Md5)
        } else if text_is(n.as_str(), "MD5-sess") {
            Some(Algorithm::Md5Sess)
        } else {
            None
        },
    }
}

fn qop_from(name: &Option<String>) -> (r: Option<Option<Qop>>)
    ensures
        r == qop_named(crate::dialog::text_view(*name)),
{
    match name {
        None => Some(None),
        Some(n) => if text_is(n.as_str(), "auth") {
            Some(Some(Qop::Auth))
        } else if text_is(n.as_str(), "auth-int") {
            Some(Some(Qop::AuthInt))
        } else {
            None
        },
    }
}

fn is_auth_header(h: &Header) -> (r: bool)
    ensures
        r == is_auth_name(h.name@),
{
    h.is_named("Authorization") || h.is_named("Proxy-Authorization") || h.is_named(
        "WWW-Authenticate",
    ) || h.is_named("Proxy-Authenticate")
}

fn strip_auth(hs: &Vec<Header>) -> (out: Vec<Header>)
    ensures
        headers_view(out@) == without_auth(headers_view(hs@), hs.len() as int),
{
    let ghost all = headers_view(hs@);
    let mut out: Vec<Header> = Vec::new();
    let mut i: usize = 0;
    assert(headers_view(out@) =~= without_auth(all, 0));
    while i < hs.len()
        invariant
            i <= hs.len(),
            all == headers_view(hs@),
            headers_view(out@) == without_auth(all, i as int),
        decreases hs.len() - i,
    {
        assert(all[i as int] == hs[i as int]@);
        if !is_auth_header(&hs[i]) {
            let ghost before = headers_view(out@);
            out.push(hs[i].duplicate());
            assert(headers_view(out@) =~= before.push(all[i as int]));
        }
        i += 1;
    }
    out
}

fn answer_text(
    username: &str,
    uri: &str,
    algorithm: Algorithm,
    qop: &Option<AuthQop>,
    challenge: &Challenge,
    digest: &str,
) -> (s: String)
    ensures
        s@ == answer_value(
            username@,
            uri@,
            algorithm,
            auth_qop_view(*qop),
            challenge@,
            digest@,
        ),
{
    let mut s = challenge.scheme.clone();
    s.append(" username=\"");
    s.append(username);
    s.append("\", realm=\"");
    s.append(challenge.realm.as_str());
    s.append("\", nonce=\"");
    s.append(challenge.nonce.as_str());
    s.append("\", uri=\"");
    s.append(uri);
    s.append("\", response=\"");
    s.append(digest);
    s.append("\", algorithm=");
    s.append(
        match algorithm {
            Algorithm::Md5 => "MD5",
            Algorithm::Md5Sess => "MD5-sess",
        },
    );
    let ghost head = s@;
    let ghost opaque = match &challenge.opaque {
        Some(o) => ", opaque=\""@ + o@ + "\""@,
        None => Seq::<char>::empty(),
    };
    match &challenge.opaque {
        Some(o) => {
            s.append(", opaque=\"");
            s.append(o.as_str());
            s.append("\"");
        },
        None => {},
    }
    assert(s@ =~= head + opaque);
    let ghost mid = s@;
    match qop {
        Some(AuthQop::Auth { cnonce, .. }) => {
            s.append(", qop=\"auth\", nc=00000001, cnonce=\"");
            s.append(cnonce.as_str());
            s.append("\"");
            assert(s@ =~= mid + (", qop=\"auth\", nc=00000001, cnonce=\""@ + cnonce@ + "\""@));
        },
        Some(AuthQop::AuthInt { cnonce, .. }) => {
            s.append(", qop=\"auth-int\", nc=00000001, cnonce=\"");
            s.append(cnonce.as_str());
            s.append("\"");
            assert(s@ =~= mid + (", qop=\"auth-int\", nc=00000001, cnonce=\""@ + cnonce@
                + "\""@));
        },
        None => {
            assert(s@ =~= mid + Seq::<char>::empty());
        },
    }
    s
}

/// Builds the request that answers the challenge in `resp`: `original`
/// under the sequence number `seq`, signed with the credential. `cnonce`
/// is the client's nonce, which the caller draws at random.
pub fn authorize(
    original: &Request,
    resp: &Response,
    credential: &Credential,
    seq: u32,
    cnonce: &str,
) -> (r: Result<Request, Error>)
    ensures
        match r {
            Ok(req) => authorized(original@, resp@, credential@, seq, cnonce@) == Ok::<
                RequestView,
                ErrorView,
            >(req@),
            Err(e) => authorized(original@, resp@, credential@, seq, cnonce@) == Err::<
                RequestView,
                ErrorView,
            >(e@),
        },
{
    proof {
        reveal_strlit("WWW-Authenticate");
        reveal_strlit("Proxy-Authenticate");
        assert("WWW-Authenticate"@.len() != "Proxy-Authenticate"@.len());
    }
    let (name, value) = match resp.header("WWW-Authenticate") {
        Some(v) => ("Authorization", v),
        None => match resp.header("Proxy-Authenticate") {
            Some(v) => ("Proxy-Authorization", v),
            None => return Err(Error::AuthError("missing proxy/www authenticate".to_owned())),
        },
    };
    let challenge = match read_challenge(value) {
        Some(c) => c,
        None => return Err(Error::AuthError("invalid challenge".to_owned())),
    };
    match &credential.realm {
        Some(r) => {
            if !(*r == challenge.realm) {
                return Err(Error::AuthError("no credential for the realm".to_owned()));
            }
        },
        None => {},
    }
    let algorithm = match algorithm_from(&challenge.algorithm) {
        Some(a) => a,
        None => return Err(Error::AuthError("unsupported algorithm".to_owned())),
    };
    let qop = match qop_from(&challenge.qop) {
        Some(q) => q,
        None => return Err(Error::AuthError("unsupported qop".to_owned())),
    };
    let answer_qop = match qop {
        Some(Qop::Auth) => Some(AuthQop::Auth { cnonce: cnonce.to_owned(), nc: 1 }),
        Some(Qop::AuthInt) => Some(AuthQop::AuthInt { cnonce: cnonce.to_owned(), nc: 1 }),
        None => None,
    };
    let ghost q = query_of(credential@, challenge@, original@, algorithm, qop, cnonce@);
    let digest = match compute_digest(
        credential.username.as_str(),
        credential.password.as_str(),
        challenge.realm.as_str(),
        challenge.nonce.as_str(),
        original.method.name(),
        original.uri.as_str(),
        algorithm,
        &answer_qop,
    ) {
        Some(d) => d,
        None => return Err(Error::AuthError("cannot compute the digest".to_owned())),
    };
    let cseq = match original.header("CSeq") {
        None => return Err(Error::parse("missing header: CSeq")),
        Some(v) => match write_cseq_number(v, seq) {
            None => return Err(Error::parse("invalid header: CSeq")),
            Some(c) => c,
        },
    };
    let mut renumbered = crate::message::duplicate_headers(&original.headers);
    set_first(&mut renumbered, "CSeq", cseq);
    assert(headers_view(renumbered@).len() == renumbered.len());
    assert(headers_view(original.headers@).len() == original.headers.len());
    let mut headers = strip_auth(&renumbered);
    let ghost kept = headers_view(headers@);
    let answer = answer_text(
        credential.username.as_str(),
        original.uri.as_str(),
        algorithm,
        &answer_qop,
        &challenge,
        digest.as_str(),
    );
    headers.push(Header { name: name.to_owned(), value: answer });
    assert(headers_view(headers@) =~= kept.push(
        header_of(
            name@,
            answer_value(q.username, q.uri, q.algorithm, q.qop, challenge@, digest@),
        ),
    ));
    Ok(
        Request {
            method: original.method,
            uri: original.uri.clone(),
            headers,
            body: original.body.clone(),
        },
    )
}

} // verus!
