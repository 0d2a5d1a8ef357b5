//! Outbound mail: addresses, messages, assembling a message with `lettre`,
//! the SMTP transport settings, and the in-memory mailer that records what
//! it sends.
use vstd::prelude::*;
use vstd::string::StringExecFns;
use vstd::utf8::is_ascii_chars;
use std::collections::BTreeMap;
use crate::slug::utf8_len;
use crate::text::{ascii_lower, chars_of};

verus! {

#[verifier::external_type_specification]
#[verifier::external_body]
pub struct ExMailbox(lettre::message::Mailbox);

#[verifier::external_type_specification]
#[verifier::external_body]
pub struct ExHeaderName(lettre::message::header::HeaderName);

/// Errors of the mail subsystem.
#[derive(Debug, Clone, PartialEq, Eq)]
pub enum MailError {
    InvalidAddress(String),
    InvalidMessage(String),
    ConnectFailed(String),
    Transport(String),
}

/// Whether `lettre` reads the text as an e-mail address.
pub uninterp spec fn address_parses(s: Seq<char>) -> bool;

/// The message of the error `lettre` gives for a text that is not an
/// e-mail address.
pub uninterp spec fn address_error_text(s: Seq<char>) -> Seq<char>;

/// `<lettre::Address as FromStr>::from_str`, its error rendered with
/// `to_string`. Success and the error text depend on the text alone; what
/// `lettre` accepts (its address grammar) is not stated.
#[verifier::external_body]
fn lettre_address_check(s: &str) -> (r: Result<(), String>)
    ensures
        r is Ok <==> address_parses(s@),
        r matches Err(t) ==> t@ == address_error_text(s@),
{
    match s.parse::<lettre::Address>() {
        Ok(_) => Ok(()),
        Err(e) => Err(e.to_string()),
    }
}

/// Whether `lettre` reads the text as a mailbox (`Name <user@host>` or a
/// bare address).
pub uninterp spec fn mailbox_parses(s: Seq<char>) -> bool;

/// The message of the error `lettre` gives for a text that is not a
/// mailbox.
pub uninterp spec fn mailbox_error_text(s: Seq<char>) -> Seq<char>;

/// `<lettre::message::Mailbox as FromStr>::from_str`, its error rendered
/// with `to_string`. Success and the error text depend on the text alone;
/// the mailbox grammar is not stated.
#[verifier::external_body]
fn lettre_mailbox_from_str(s: &str) -> (r: Result<lettre::message::Mailbox, String>)
    ensures
        r is Ok <==> mailbox_parses(s@),
        r matches Err(t) ==> t@ == mailbox_error_text(s@),
{
    s.parse::<lettre::message::Mailbox>().map_err(|e| e.to_string())
}

/// A header name `lettre` accepts: non-empty, at most 76 bytes, ASCII, and
/// free of `:` and space.
pub open spec fn header_name_ok(cs: Seq<char>) -> bool {
    &&& cs.len() > 0
    &&& utf8_len(cs) <= 76
    &&& is_ascii_chars(cs)
    &&& forall|i: int| 0 <= i < cs.len() ==> #[trigger] cs[i] != ':' && cs[i] != ' '
}

/// `lettre::message::header::HeaderName::new_from_ascii`: it accepts the
/// name exactly when [`header_name_ok`] holds (its source checks emptiness,
/// the 76-byte limit, ASCII, and the absence of `:` and space).
#[verifier::external_body]
fn lettre_header_name(name: String) -> (r: Option<lettre::message::header::HeaderName>)
    ensures
        r is Some <==> header_name_ok(name@),
{
    lettre::message::header::HeaderName::new_from_ascii(name).ok()
}

/// A syntactically valid e-mail address.
#[derive(Debug, Clone, PartialEq, Eq)]
pub struct EmailAddress(String);

impl View for EmailAddress {
    type V = Seq<char>;

    closed spec fn view(&self) -> Seq<char> {
        self.0@
    }
}

impl EmailAddress {
    /// Parse an address; it is valid when `lettre` reads it as one.
    pub fn parse(s: &str) -> (r: Result<EmailAddress, MailError>)
        ensures
            r matches Ok(a) ==> address_parses(s@) && a@ == s@,
            r matches Err(e) ==> !address_parses(s@) && (e matches MailError::InvalidAddress(t)
                && t@ == address_error_text(s@)),
            r is Ok <==> address_parses(s@),
    {
        match lettre_address_check(s) {
            Ok(()) => Ok(EmailAddress(String::from_str(s))),
            Err(t) => Err(MailError::InvalidAddress(t)),
        }
    }

    pub fn as_str(&self) -> (r: &str)
        ensures
            r@ == self@,
    {
        self.0.as_str()
    }
}

/// An outgoing e-mail.
#[derive(Debug)]
pub struct OutgoingMail {
    pub from: EmailAddress,
    pub to: Vec<EmailAddress>,
    pub cc: Vec<EmailAddress>,
    pub bcc: Vec<EmailAddress>,
    pub subject: String,
    pub text_body: Option<String>,
    pub html_body: Option<String>,
    pub headers: BTreeMap<String, String>,
}

/// Two messages agree in every field (the header maps by their contents).
pub open spec fn same_mail(a: OutgoingMail, b: OutgoingMail) -> bool {
    &&& a.from == b.from
    &&& a.to@ == b.to@
    &&& a.cc@ == b.cc@
    &&& a.bcc@ == b.bcc@
    &&& a.subject == b.subject
    &&& a.text_body == b.text_body
    &&& a.html_body == b.html_body
    &&& a.headers@ == b.headers@
}

fn clone_addresses(v: &Vec<EmailAddress>) -> (r: Vec<EmailAddress>)
    ensures
        r@ == v@,
{
    let mut r: Vec<EmailAddress> = Vec::new();
    let mut i: usize = 0;
    while i < v.len()
        invariant
            i <= v.len(),
            r@ == v@.take(i as int),
        decreases v.len() - i,
    {
        r.push(EmailAddress(v[i].0.clone()));
        proof {
            assert(r@ =~= v@.take(i + 1));
        }
        i += 1;
    }
    assert(v@.take(v.len() as int) =~= v@);
    r
}

fn clone_text(o: &Option<String>) -> (r: Option<String>)
    ensures
        r == *o,
{
    match o {
        Some(s) => Some(s.clone()),
        None => None,
    }
}

impl Clone for OutgoingMail {
    fn clone(&self) -> (r: Self)
        ensures
            same_mail(r, *self),
    {
        OutgoingMail {
            from: EmailAddress(self.from.0.clone()),
            to: clone_addresses(&self.to),
            cc: clone_addresses(&self.cc),
            bcc: clone_addresses(&self.bcc),
            subject: self.subject.clone(),
            text_body: clone_text(&self.text_body),
            html_body: clone_text(&self.html_body),
            headers: self.headers.clone(),
        }
    }
}

/// Read an address as a `lettre` mailbox.
pub fn parse_mailbox(addr: &EmailAddress) -> (r: Result<lettre::message::Mailbox, MailError>)
    ensures
        r is Ok <==> mailbox_parses(addr@),
        r matches Err(e) ==> e matches MailError::InvalidAddress(t) && t@ == mailbox_error_text(
            addr@,
        ),
{
    match lettre_mailbox_from_str(addr.as_str()) {
        Ok(m) => Ok(m),
        Err(t) => Err(MailError::InvalidAddress(t)),
    }
}

/// The first address of the list that does not read as a mailbox.
pub open spec fn first_unparsable(addrs: Seq<EmailAddress>) -> Option<Seq<char>>
    decreases addrs.len(),
{
    if addrs.len() == 0 {
        None
    } else if !mailbox_parses(addrs[0]@) {
        Some(addrs[0]@)
    } else {
        first_unparsable(addrs.drop_first())
    }
}

/// A header name for a custom header, or the error naming the rejected key.
pub fn header_name(key: &String) -> (r: Result<lettre::message::header::HeaderName, MailError>)
    ensures
        r is Ok <==> header_name_ok(key@),
        r matches Err(e) ==> e matches MailError::InvalidMessage(t) && t@ == "invalid header name: "@
            + key@,
{
    match lettre_header_name(key.clone()) {
        Some(n) => Ok(n),
        None => {
            let mut t = String::from_str("invalid header name: ");
            t.append(key.as_str());
            Err(MailError::InvalidMessage(t))
        },
    }
}

/// The MIME shape of a message body.
pub enum MailBody {
    /// `multipart/alternative` with a plain-text and an HTML part.
    Alternative { text: String, html: String },
    /// A plain-text body.
    Text(String),
    /// A single HTML part.
    Html(String),
    /// An empty plain body.
    Empty,
}

/// The body shape for the optional plain-text and HTML bodies of a message.
pub fn mail_body(text: Option<String>, html: Option<String>) -> (r: MailBody)
    ensures
        match (text, html) {
            (Some(t), Some(h)) => r matches MailBody::Alternative { text: a, html: b } && a == t && b
                == h,
            (Some(t), None) => r matches MailBody::Text(a) && a == t,
            (None, Some(h)) => r matches MailBody::Html(b) && b == h,
            (None, None) => r is Empty,
        },
{
    match (text, html) {
        (Some(t), Some(h)) => MailBody::Alternative { text: t, html: h },
        (Some(t), None) => MailBody::Text(t),
        (None, Some(h)) => MailBody::Html(h),
        (None, None) => MailBody::Empty,
    }
}

#[verifier::external_type_specification]
#[verifier::external_body]
pub struct ExMessageBuilder(lettre::message::MessageBuilder);

#[verifier::external_type_specification]
#[verifier::external_body]
pub struct ExMessage(lettre::Message);

#[verifier::external_type_specification]
#[verifier::external_body]
pub struct ExSinglePart(lettre::message::SinglePart);

#[verifier::external_type_specification]
#[verifier::external_body]
pub struct ExMultiPart(lettre::message::MultiPart);

/// Header names as the message model keys them: ASCII-lowercased, since
/// `lettre` compares header names without regard to ASCII case.
pub open spec fn header_key(name: Seq<char>) -> Seq<char> {
    name.map_values(|c: char| ascii_lower(c))
}

pub open spec fn key_from() -> Seq<char> {
    seq!['f', 'r', 'o', 'm']
}

pub open spec fn key_to() -> Seq<char> {
    seq!['t', 'o']
}

pub open spec fn key_cc() -> Seq<char> {
    seq!['c', 'c']
}

pub open spec fn key_bcc() -> Seq<char> {
    seq!['b', 'c', 'c']
}

pub open spec fn key_subject() -> Seq<char> {
    seq!['s', 'u', 'b', 'j', 'e', 'c', 't']
}

pub open spec fn key_sender() -> Seq<char> {
    seq!['s', 'e', 'n', 'd', 'e', 'r']
}

pub open spec fn key_date() -> Seq<char> {
    seq!['d', 'a', 't', 'e']
}

pub open spec fn key_mime_version() -> Seq<char> {
    seq!['m', 'i', 'm', 'e', '-', 'v', 'e', 'r', 's', 'i', 'o', 'n']
}

pub open spec fn key_transfer_encoding() -> Seq<char> {
    seq![
        'c', 'o', 'n', 't', 'e', 'n', 't', '-', 't', 'r', 'a', 'n', 's', 'f', 'e', 'r', '-', 'e',
        'n', 'c', 'o', 'd', 'i', 'n', 'g',
    ]
}


/// The text of the mailbox that `s` reads as (`Mailbox::from_str`, then
/// its `Display`); a function of the text alone.
pub uninterp spec fn mailbox_rendering(s: Seq<char>) -> Seq<char>;

/// The headers a message builder holds, by [`header_key`]: for a mailbox
/// header (`true`) the mailboxes it lists, each rendered; for any other
/// header (`false`) its one raw value.
pub uninterp spec fn builder_headers(b: lettre::message::MessageBuilder) -> Map<
    Seq<char>,
    (bool, Seq<Seq<char>>),
>;

/// The headers a built message holds, keyed and valued as in
/// [`builder_headers`].
pub uninterp spec fn message_headers(m: lettre::Message) -> Map<Seq<char>, (bool, Seq<Seq<char>>)>;

/// The body of a built message as its parts: (0, text) for a raw body,
/// (1, text) for a `text/plain` part, (2, text) for a `text/html` part.
pub uninterp spec fn message_body(m: lettre::Message) -> Seq<(u8, Seq<char>)>;

/// The content of a single MIME part, as in [`message_body`].
pub uninterp spec fn single_part_content(p: lettre::message::SinglePart) -> Seq<(u8, Seq<char>)>;

/// The parts of a multipart body, as in [`message_body`].
pub uninterp spec fn multi_part_content(p: lettre::message::MultiPart) -> Seq<(u8, Seq<char>)>;

/// The address part of the mailbox that a text reads as
/// (`Mailbox::email`), rendered.
pub uninterp spec fn mailbox_email(s: Seq<char>) -> Seq<char>;

/// The recipient lists a message builder holds, by [`header_key`] of the
/// `To`, `Cc` and `Bcc` headers it has: the addresses `lettre` reads from
/// each, in order.
pub uninterp spec fn builder_recipients(b: lettre::message::MessageBuilder) -> Map<
    Seq<char>,
    Seq<Seq<char>>,
>;

/// The recipient addresses of a built message's envelope, each rendered,
/// in order.
pub uninterp spec fn message_envelope(m: lettre::Message) -> Seq<Seq<char>>;

/// No recipient list at all.
pub open spec fn no_recipients() -> Map<Seq<char>, Seq<Seq<char>>> {
    Map::empty()
}

/// `rs` with the address `e` added to the recipient list `k`.
pub open spec fn with_recipient(rs: Map<Seq<char>, Seq<Seq<char>>>, k: Seq<char>, e: Seq<char>) -> Map<
    Seq<char>,
    Seq<Seq<char>>,
> {
    if rs.contains_key(k) {
        rs.insert(k, rs[k].push(e))
    } else {
        rs.insert(k, seq![e])
    }
}

/// The recipient list `k` of `rs` (empty when absent).
pub open spec fn recipient_list(rs: Map<Seq<char>, Seq<Seq<char>>>, k: Seq<char>) -> Seq<Seq<char>> {
    if rs.contains_key(k) {
        rs[k]
    } else {
        Seq::empty()
    }
}

/// The envelope `lettre` derives from recipient lists: `To`, then `Cc`,
/// then `Bcc`.
pub open spec fn envelope_of(rs: Map<Seq<char>, Seq<Seq<char>>>) -> Seq<Seq<char>> {
    recipient_list(rs, key_to()) + recipient_list(rs, key_cc()) + recipient_list(rs, key_bcc())
}

/// `k` names one of the recipient headers.
pub open spec fn recipient_header(k: Seq<char>) -> bool {
    k == key_to() || k == key_cc() || k == key_bcc()
}

/// `v` with the rendered mailbox `m` added to the mailbox header `k`.
pub open spec fn with_mailbox(
    v: Map<Seq<char>, (bool, Seq<Seq<char>>)>,
    k: Seq<char>,
    m: Seq<char>,
) -> Map<Seq<char>, (bool, Seq<Seq<char>>)> {
    if v.contains_key(k) {
        v.insert(k, (true, v[k].1.push(m)))
    } else {
        v.insert(k, (true, seq![m]))
    }
}

/// The builder holds only the sender and recipient mailbox headers.
pub open spec fn mailbox_headers_only(v: Map<Seq<char>, (bool, Seq<Seq<char>>)>) -> bool {
    forall|k: Seq<char>|
        #[trigger] v.contains_key(k) ==> (k == key_from() || k == key_to() || k == key_cc() || k
            == key_bcc()) && v[k].0
}

/// Number of mailboxes under header `k`.
pub open spec fn mailbox_count(v: Map<Seq<char>, (bool, Seq<Seq<char>>)>, k: Seq<char>) -> int {
    if v.contains_key(k) {
        v[k].1.len() as int
    } else {
        0
    }
}

/// What `lettre` needs to build a message: one sender mailbox, no `Sender`
/// header, and at least one recipient, the recipient headers being
/// mailbox lists.
pub open spec fn builder_ready(v: Map<Seq<char>, (bool, Seq<Seq<char>>)>) -> bool {
    &&& v.contains_key(key_from()) && v[key_from()].0 && v[key_from()].1.len() == 1
    &&& !v.contains_key(key_sender())
    &&& v.contains_key(key_to()) ==> v[key_to()].0
    &&& v.contains_key(key_cc()) ==> v[key_cc()].0
    &&& v.contains_key(key_bcc()) ==> v[key_bcc()].0
    &&& mailbox_count(v, key_to()) + mailbox_count(v, key_cc()) + mailbox_count(v, key_bcc()) >= 1
}

/// A built message keeps the builder's headers, but for `Bcc` (dropped),
/// `Date` (added when missing), `MIME-Version` and
/// `Content-Transfer-Encoding` (set by the body).
pub open spec fn headers_carried(
    v: Map<Seq<char>, (bool, Seq<Seq<char>>)>,
    mh: Map<Seq<char>, (bool, Seq<Seq<char>>)>,
) -> bool {
    forall|k: Seq<char>|
        !(k == key_bcc() || k == key_date() || k == key_mime_version() || k
            == key_transfer_encoding()) ==> (#[trigger] mh.contains_key(k) == v.contains_key(k)
            && (v.contains_key(k) ==> mh[k] == v[k]))
}

/// No header at all.
pub open spec fn no_headers() -> Map<Seq<char>, (bool, Seq<Seq<char>>)> {
    Map::empty()
}

/// `Message::builder`: a builder with no header.
#[verifier::external_body]
fn lettre_message_builder() -> (r: lettre::message::MessageBuilder)
    ensures
        builder_headers(r) == no_headers(),
        builder_recipients(r) == no_recipients(),
{
    lettre::Message::builder()
}

/// `MessageBuilder::from` with the mailbox `addr` reads as (the text is
/// converted with `Mailbox::from_str`, which `requires` says succeeds): the
/// mailbox joins the `From` list. The other headers must be mailbox lists
/// (`mailbox` re-reads the list it extends).
#[verifier::external_body]
fn lettre_builder_from(b: lettre::message::MessageBuilder, addr: &str) -> (r:
    lettre::message::MessageBuilder)
    requires
        mailbox_parses(addr@),
        mailbox_headers_only(builder_headers(b)),
    ensures
        builder_headers(r) == with_mailbox(builder_headers(b), key_from(), mailbox_rendering(addr@)),
        builder_recipients(r) == builder_recipients(b),
{
    match addr.parse::<lettre::message::Mailbox>() {
        Ok(m) => b.from(m),
        Err(_) => b,
    }
}

/// `MessageBuilder::to`, as [`lettre_builder_from`] for the `To` list.
#[verifier::external_body]
fn lettre_builder_to(b: lettre::message::MessageBuilder, addr: &str) -> (r:
    lettre::message::MessageBuilder)
    requires
        mailbox_parses(addr@),
        mailbox_headers_only(builder_headers(b)),
    ensures
        builder_headers(r) == with_mailbox(builder_headers(b), key_to(), mailbox_rendering(addr@)),
        builder_recipients(r) == with_recipient(builder_recipients(b), key_to(), mailbox_email(addr@)),
{
    match addr.parse::<lettre::message::Mailbox>() {
        Ok(m) => b.to(m),
        Err(_) => b,
    }
}

/// `MessageBuilder::cc`, as [`lettre_builder_from`] for the `Cc` list.
#[verifier::external_body]
fn lettre_builder_cc(b: lettre::message::MessageBuilder, addr: &str) -> (r:
    lettre::message::MessageBuilder)
    requires
        mailbox_parses(addr@),
        mailbox_headers_only(builder_headers(b)),
    ensures
        builder_headers(r) == with_mailbox(builder_headers(b), key_cc(), mailbox_rendering(addr@)),
        builder_recipients(r) == with_recipient(builder_recipients(b), key_cc(), mailbox_email(addr@)),
{
    match addr.parse::<lettre::message::Mailbox>() {
        Ok(m) => b.cc(m),
        Err(_) => b,
    }
}

/// `MessageBuilder::bcc`, as [`lettre_builder_from`] for the `Bcc` list.
#[verifier::external_body]
fn lettre_builder_bcc(b: lettre::message::MessageBuilder, addr: &str) -> (r:
    lettre::message::MessageBuilder)
    requires
        mailbox_parses(addr@),
        mailbox_headers_only(builder_headers(b)),
    ensures
        builder_headers(r) == with_mailbox(builder_headers(b), key_bcc(), mailbox_rendering(addr@)),
        builder_recipients(r) == with_recipient(builder_recipients(b), key_bcc(), mailbox_email(addr@)),
{
    match addr.parse::<lettre::message::Mailbox>() {
        Ok(m) => b.bcc(m),
        Err(_) => b,
    }
}

/// `MessageBuilder::subject`: sets (replaces) the `Subject` header.
#[verifier::external_body]
fn lettre_builder_subject(b: lettre::message::MessageBuilder, subject: &str) -> (r:
    lettre::message::MessageBuilder)
    ensures
        builder_headers(r) == builder_headers(b).insert(key_subject(), (false, seq![subject@])),
        builder_recipients(r) == builder_recipients(b),
{
    b.subject(subject)
}

/// `MessageBuilder::raw_header` with `HeaderValue::new(name, value)`, the
/// name converted with `HeaderName::new_from_ascii` (which `requires` says
/// accepts it): sets (replaces) the header of that name, up to ASCII case.
#[verifier::external_body]
fn lettre_builder_raw_header(b: lettre::message::MessageBuilder, name: String, value: String) -> (r:
    lettre::message::MessageBuilder)
    requires
        header_name_ok(name@),
    ensures
        builder_headers(r) == builder_headers(b).insert(header_key(name@), (false, seq![value@])),
        !recipient_header(header_key(name@)) ==> builder_recipients(r) == builder_recipients(b),
{
    match lettre::message::header::HeaderName::new_from_ascii(name) {
        Ok(n) => b.raw_header(lettre::message::header::HeaderValue::new(n, value)),
        Err(_) => b,
    }
}

/// `MultiPart::alternative_plain_html`: a `multipart/alternative` with a
/// `text/plain` and a `text/html` part.
#[verifier::external_body]
fn lettre_alternative_plain_html(text: String, html: String) -> (r: lettre::message::MultiPart)
    ensures
        multi_part_content(r) == seq![(1u8, text@), (2u8, html@)],
{
    lettre::message::MultiPart::alternative_plain_html(text, html)
}

/// `SinglePart::html`: a `text/html` part.
#[verifier::external_body]
fn lettre_html_part(html: String) -> (r: lettre::message::SinglePart)
    ensures
        single_part_content(r) == seq![(2u8, html@)],
{
    lettre::message::SinglePart::html(html)
}

/// A `Content-Transfer-Encoding` of a message body.
#[derive(Debug, Clone, Copy, PartialEq, Eq, Structural)]
pub enum TransferEncoding {
    SevenBit,
    EightBit,
    QuotedPrintable,
    Base64,
    Binary,
}

/// The encoding a `Content-Transfer-Encoding` value names, as `lettre`
/// reads it (exactly one of `7bit`, `8bit`, `quoted-printable`, `base64`,
/// `binary`; any other text names none).
pub open spec fn transfer_encoding_named(s: Seq<char>) -> Option<TransferEncoding> {
    if s == seq!['7', 'b', 'i', 't'] {
        Some(TransferEncoding::SevenBit)
    } else if s == seq!['8', 'b', 'i', 't'] {
        Some(TransferEncoding::EightBit)
    } else if s == seq![
        'q', 'u', 'o', 't', 'e', 'd', '-', 'p', 'r', 'i', 'n', 't', 'a', 'b', 'l', 'e',
    ] {
        Some(TransferEncoding::QuotedPrintable)
    } else if s == seq!['b', 'a', 's', 'e', '6', '4'] {
        Some(TransferEncoding::Base64)
    } else if s == seq!['b', 'i', 'n', 'a', 'r', 'y'] {
        Some(TransferEncoding::Binary)
    } else {
        None
    }
}

/// Whether `lettre` accepts a text body under an encoding
/// (`Body::new_with_encoding` succeeds).
pub uninterp spec fn encoding_fits(e: TransferEncoding, text: Seq<char>) -> bool;

/// `Body::new_with_encoding` on the text, converted to a `String`: whether
/// it succeeds. `MessageBuilder::body` panics exactly where it does not.
#[verifier::external_body]
fn lettre_body_fits(e: TransferEncoding, text: &str) -> (r: bool)
    ensures
        r == encoding_fits(e, text@),
{
    let encoding = match e {
        TransferEncoding::SevenBit => lettre::message::header::ContentTransferEncoding::SevenBit,
        TransferEncoding::EightBit => lettre::message::header::ContentTransferEncoding::EightBit,
        TransferEncoding::QuotedPrintable => lettre::message::header::ContentTransferEncoding::QuotedPrintable,
        TransferEncoding::Base64 => lettre::message::header::ContentTransferEncoding::Base64,
        TransferEncoding::Binary => lettre::message::header::ContentTransferEncoding::Binary,
    };
    lettre::message::Body::new_with_encoding(text.to_string(), encoding).is_ok()
}

/// Whether a text reads as a mailbox list (`Mailboxes::from_str`).
pub uninterp spec fn mailbox_list_parses(s: Seq<char>) -> bool;

/// How many mailboxes a text that reads as a mailbox list holds.
pub uninterp spec fn mailbox_list_len(s: Seq<char>) -> nat;

/// `<Mailboxes as FromStr>::from_str`, the list converted to a vector: the
/// mailboxes, or `None` for a text that is not a mailbox list.
#[verifier::external_body]
fn lettre_mailbox_list(s: &str) -> (r: Option<Vec<lettre::message::Mailbox>>)
    ensures
        r is Some <==> mailbox_list_parses(s@),
        r matches Some(v) ==> v.len() == mailbox_list_len(s@),
{
    match s.parse::<lettre::message::Mailboxes>() {
        Ok(m) => Some(Vec::from(m)),
        Err(_) => None,
    }
}

/// The `From` header of builder headers `v`, if any, names at least one
/// mailbox: a mailbox list is not empty, and a raw value does not read as
/// an empty list. (Building takes the one sender with `expect`.)
pub open spec fn from_not_empty(v: Map<Seq<char>, (bool, Seq<Seq<char>>)>) -> bool {
    v.contains_key(key_from()) ==> if v[key_from()].0 {
        v[key_from()].1.len() >= 1
    } else {
        v[key_from()].1.len() == 1 && !(mailbox_list_parses(v[key_from()].1[0]) && mailbox_list_len(
            v[key_from()].1[0],
        ) == 0)
    }
}

/// Building from builder headers `v` finds its envelope sender: the `From`
/// header names a mailbox (see [`from_not_empty`]), or a raw `Sender` value
/// reads as a mailbox (the envelope then takes the sender from it).
pub open spec fn sender_found(v: Map<Seq<char>, (bool, Seq<Seq<char>>)>) -> bool {
    ||| from_not_empty(v)
    ||| v.contains_key(key_sender()) && !v[key_sender()].0 && v[key_sender()].1.len() == 1
        && mailbox_parses(v[key_sender()].1[0])
}

/// A `Content-Transfer-Encoding` header of builder headers `v`, if any, is
/// a raw value that names no encoding or one that can carry `body`.
pub open spec fn encoding_carries(v: Map<Seq<char>, (bool, Seq<Seq<char>>)>, body: Seq<char>) -> bool {
    v.contains_key(key_transfer_encoding()) ==> !v[key_transfer_encoding()].0
        && v[key_transfer_encoding()].1.len() == 1 && (transfer_encoding_named(
        v[key_transfer_encoding()].1[0],
    ) matches Some(e) ==> encoding_fits(e, body))
}

/// `MessageBuilder::body`, its error rendered with `to_string`: a message
/// with a raw body. It succeeds when the builder is ready, the message
/// keeps the builder's headers, and its envelope lists the builder's
/// recipients. It panics when a `Content-Transfer-Encoding` header names an
/// encoding the body does not fit, or when the `From` header names no
/// mailbox; `requires` leaves both out.
#[verifier::external_body]
fn lettre_builder_body(b: lettre::message::MessageBuilder, body: String) -> (r: Result<
    lettre::Message,
    String,
>)
    requires
        sender_found(builder_headers(b)),
        encoding_carries(builder_headers(b), body@),
    ensures
        builder_ready(builder_headers(b)) ==> r is Ok,
        r matches Ok(m) ==> headers_carried(builder_headers(b), message_headers(m)) && message_body(m)
            == seq![(0u8, body@)],
        r matches Ok(m) ==> message_envelope(m) == envelope_of(builder_recipients(b)),
{
    match b.body(body) {
        Ok(m) => Ok(m),
        Err(e) => Err(e.to_string()),
    }
}

/// `MessageBuilder::multipart`, its error rendered with `to_string`: as
/// [`lettre_builder_body`], the body being the parts (a transfer encoding
/// header plays no part).
#[verifier::external_body]
fn lettre_builder_multipart(
    b: lettre::message::MessageBuilder,
    part: lettre::message::MultiPart,
) -> (r: Result<lettre::Message, String>)
    requires
        sender_found(builder_headers(b)),
    ensures
        builder_ready(builder_headers(b)) ==> r is Ok,
        r matches Ok(m) ==> headers_carried(builder_headers(b), message_headers(m)) && message_body(m)
            == multi_part_content(part),
        r matches Ok(m) ==> message_envelope(m) == envelope_of(builder_recipients(b)),
{
    match b.multipart(part) {
        Ok(m) => Ok(m),
        Err(e) => Err(e.to_string()),
    }
}

/// `MessageBuilder::singlepart`, its error rendered with `to_string`: as
/// [`lettre_builder_body`], the body being the part (a transfer encoding
/// header plays no part).
#[verifier::external_body]
fn lettre_builder_singlepart(
    b: lettre::message::MessageBuilder,
    part: lettre::message::SinglePart,
) -> (r: Result<lettre::Message, String>)
    requires
        sender_found(builder_headers(b)),
    ensures
        builder_ready(builder_headers(b)) ==> r is Ok,
        r matches Ok(m) ==> headers_carried(builder_headers(b), message_headers(m)) && message_body(m)
            == single_part_content(part),
        r matches Ok(m) ==> message_envelope(m) == envelope_of(builder_recipients(b)),
{
    match b.singlepart(part) {
        Ok(m) => Ok(m),
        Err(e) => Err(e.to_string()),
    }
}

/// The entries of a string map in key order, each cloned
/// (`BTreeMap::iter`, collected). Verus cannot bound a loop over this
/// iterator, as `String` keys carry no comparison specification, so the
/// walk is trusted: it yields every entry of the map once (their order is
/// not stated).
#[verifier::external_body]
fn string_map_entries(m: &BTreeMap<String, String>) -> (r: Vec<(String, String)>)
    ensures
        forall|i: int| 0 <= i < r.len() ==> m@.contains_key(#[trigger] r@[i].0) && m@[r@[i].0] == r@[i].1,
        forall|k: String| #[trigger] m@.contains_key(k) ==> exists|i: int| 0 <= i < r.len() && r@[i].0 == k,
{
    m.iter().map(|(k, v)| (k.clone(), v.clone())).collect()
}

/// The first address of a message, in the order sender, `To`, `Cc`,
/// `Bcc`, that does not read as a mailbox.
pub open spec fn first_unparsable_address(m: OutgoingMail) -> Option<Seq<char>> {
    if !mailbox_parses(m.from@) {
        Some(m.from@)
    } else if first_unparsable(m.to@) is Some {
        first_unparsable(m.to@)
    } else if first_unparsable(m.cc@) is Some {
        first_unparsable(m.cc@)
    } else {
        first_unparsable(m.bcc@)
    }
}

/// The rendered mailboxes of an address list.
pub open spec fn renderings(addrs: Seq<EmailAddress>) -> Seq<Seq<char>> {
    addrs.map_values(|a: EmailAddress| mailbox_rendering(a@))
}

/// The mailbox addresses of an address list.
pub open spec fn emails(addrs: Seq<EmailAddress>) -> Seq<Seq<char>> {
    addrs.map_values(|a: EmailAddress| mailbox_email(a@))
}

/// `rs` with the recipient list `k` holding the addresses of `addrs`
/// (absent when empty).
pub open spec fn with_email_list(
    rs: Map<Seq<char>, Seq<Seq<char>>>,
    k: Seq<char>,
    addrs: Seq<EmailAddress>,
) -> Map<Seq<char>, Seq<Seq<char>>> {
    if addrs.len() == 0 {
        rs
    } else {
        rs.insert(k, emails(addrs))
    }
}

/// `v` with the mailbox header `k` listing `addrs` (absent when empty).
pub open spec fn with_list(
    v: Map<Seq<char>, (bool, Seq<Seq<char>>)>,
    k: Seq<char>,
    addrs: Seq<EmailAddress>,
) -> Map<Seq<char>, (bool, Seq<Seq<char>>)> {
    if addrs.len() == 0 {
        v
    } else {
        v.insert(k, (true, renderings(addrs)))
    }
}

/// The sender and recipient headers of a message.
pub open spec fn address_headers(m: OutgoingMail) -> Map<Seq<char>, (bool, Seq<Seq<char>>)> {
    with_list(
        with_list(
            with_list(
                Map::empty().insert(key_from(), (true, seq![mailbox_rendering(m.from@)])),
                key_to(),
                m.to@,
            ),
            key_cc(),
            m.cc@,
        ),
        key_bcc(),
        m.bcc@,
    )
}

/// No custom header of `m` replaces the sender or recipient headers
/// (`From`, `Sender`, `To`, `Cc`, `Bcc`).
pub open spec fn keeps_addresses(m: OutgoingMail) -> bool {
    forall|k: String| #[trigger] m.headers@.contains_key(k) ==> {
        let hk = header_key(k@);
        !(hk == key_from() || hk == key_sender() || hk == key_to() || hk == key_cc() || hk == key_bcc())
    }
}

/// The body parts [`build_message`] gives a message, by [`mail_body`]'s
/// shape.
pub open spec fn planned_body(m: OutgoingMail) -> Seq<(u8, Seq<char>)> {
    match (m.text_body, m.html_body) {
        (Some(t), Some(h)) => seq![(1u8, t@), (2u8, h@)],
        (Some(t), None) => seq![(0u8, t@)],
        (None, Some(h)) => seq![(2u8, h@)],
        (None, None) => seq![(0u8, Seq::<char>::empty())],
    }
}

/// `e` is the error for a custom header name `lettre` refuses.
pub open spec fn names_bad_header(m: OutgoingMail, e: MailError) -> bool {
    e matches MailError::InvalidMessage(t) && exists|k: String|
        #[trigger] m.headers@.contains_key(k) && !header_name_ok(k@) && t@ == "invalid header name: "@
            + k@
}

/// Some custom header of `m` has the name `k` (up to ASCII case).
pub open spec fn has_custom(m: OutgoingMail, k: Seq<char>) -> bool {
    exists|k2: String| #[trigger] m.headers@.contains_key(k2) && header_key(k2@) == k
}

/// No custom header of `m` replaces a recipient header (`To`, `Cc`, `Bcc`).
pub open spec fn keeps_recipients(m: OutgoingMail) -> bool {
    !has_custom(m, key_to()) && !has_custom(m, key_cc()) && !has_custom(m, key_bcc())
}

/// The headers the assembly sets before the custom ones: sender,
/// recipients and subject.
pub open spec fn sent_headers(m: OutgoingMail) -> Map<Seq<char>, (bool, Seq<Seq<char>>)> {
    address_headers(m).insert(key_subject(), (false, seq![m.subject@]))
}

/// The headers `lettre` itself manages while building a message: `Bcc`
/// (dropped), `Date` (added when missing), `MIME-Version` and
/// `Content-Transfer-Encoding` (set by the body).
pub open spec fn lettre_managed(k: Seq<char>) -> bool {
    k == key_bcc() || k == key_date() || k == key_mime_version() || k == key_transfer_encoding()
}

/// The headers `mh` of a built message carry the mail: each of `From`,
/// `To`, `Cc` and `Subject` that no custom header replaces is as the
/// assembly set it, and under the name of each custom header (but for those
/// `lettre` manages) stands, as raw text, the value of a custom header of
/// that name up to ASCII case (the value itself when no other custom name
/// differs from it only in case).
pub open spec fn carries_mail(m: OutgoingMail, mh: Map<Seq<char>, (bool, Seq<Seq<char>>)>) -> bool {
    let sh = sent_headers(m);
    &&& forall|k: Seq<char>|
        (k == key_from() || k == key_to() || k == key_cc() || k == key_subject()) && !has_custom(m, k)
            ==> (#[trigger] mh.contains_key(k) == sh.contains_key(k) && (sh.contains_key(k) ==> mh[k]
            == sh[k]))
    &&& forall|k: String|
        #[trigger] m.headers@.contains_key(k) && !lettre_managed(header_key(k@)) ==> mh.contains_key(
            header_key(k@),
        ) && exists|k2: String|
            #[trigger] m.headers@.contains_key(k2) && header_key(k2@) == header_key(k@) && mh[header_key(
                k@,
            )] == (false, seq![m.headers@[k2]@])
}

/// The text a plain-text or empty body gives `MessageBuilder::body`.
pub open spec fn plain_text(m: OutgoingMail) -> Seq<char> {
    match m.text_body {
        Some(t) => t@,
        None => Seq::empty(),
    }
}

/// Some custom header of `m` is a `Sender`, and each such header reads as a
/// mailbox.
pub open spec fn sender_given(m: OutgoingMail) -> bool {
    &&& has_custom(m, key_sender())
    &&& forall|k: String|
        #[trigger] m.headers@.contains_key(k) && header_key(k@) == key_sender() ==> mailbox_parses(
            m.headers@[k]@,
        )
}

/// Building with the custom header `e` does not make `lettre` panic: a
/// `From` value does not read as an empty mailbox list (unless a custom
/// `Sender` gives the envelope its sender), and over a plain-text or empty
/// body a `Content-Transfer-Encoding` value that names an encoding names
/// one that can carry the text.
pub open spec fn entry_buildable(m: OutgoingMail, e: (String, String)) -> bool {
    &&& header_key(e.0@) == key_from() ==> (!(mailbox_list_parses(e.1@) && mailbox_list_len(e.1@) == 0)
        || sender_given(m))
    &&& m.html_body is None && header_key(e.0@) == key_transfer_encoding() ==> (transfer_encoding_named(
        e.1@,
    ) matches Some(x) ==> encoding_fits(x, plain_text(m)))
}

/// `lettre` builds the message for `m` without panicking: every custom
/// header is [`entry_buildable`].
pub open spec fn message_buildable(m: OutgoingMail) -> bool {
    forall|k: String| #[trigger] m.headers@.contains_key(k) ==> entry_buildable(m, (k, m.headers@[k]))
}

/// The builder headers `v` hold the custom header `e` under `k`, as raw
/// text.
pub open spec fn holds_entry(v: Map<Seq<char>, (bool, Seq<Seq<char>>)>, k: Seq<char>, e: (String, String)) -> bool {
    header_key(e.0@) == k && v.contains_key(k) && v[k] == (false, seq![e.1@])
}

/// What [`build_message`] returns for `msg`.
pub open spec fn build_outcome(msg: OutgoingMail, r: Result<lettre::Message, MailError>) -> bool {
    &&& first_unparsable_address(msg) matches Some(a) ==> r matches Err(e) && e matches MailError::InvalidAddress(t)
        && t@ == mailbox_error_text(a)
    &&& first_unparsable_address(msg) is None ==> !(r matches Err(MailError::InvalidAddress(_)))
    &&& r matches Err(e) ==> e is InvalidAddress || e is InvalidMessage
    &&& r is Ok ==> first_unparsable_address(msg) is None
    &&& r is Ok ==> forall|k: String| #[trigger] msg.headers@.contains_key(k) ==> header_name_ok(k@)
    &&& first_unparsable_address(msg) is None && (exists|k: String| #[trigger] msg.headers@.contains_key(k)
        && !header_name_ok(k@)) ==> (r matches Err(e) && names_bad_header(msg, e))
    &&& first_unparsable_address(msg) is None && (forall|k: String| #[trigger] msg.headers@.contains_key(k)
        ==> header_name_ok(k@)) && keeps_addresses(msg) && msg.to.len() + msg.cc.len() + msg.bcc.len()
        >= 1 ==> r is Ok
    &&& r matches Ok(m) ==> carries_mail(msg, message_headers(m))
    &&& r matches Ok(m) ==> message_body(m) == planned_body(msg)
    &&& r matches Ok(m) ==> (keeps_recipients(msg) ==> message_envelope(m) == emails(msg.to@) + emails(msg.cc@)
        + emails(msg.bcc@))
}

/// Which recipient header an address list fills.
#[derive(Clone, Copy)]
enum RecipientKind {
    To,
    Cc,
    Bcc,
}

/// Add every address of the list, in order, as a recipient of the given
/// kind; the first address that is not a mailbox is the error.
fn add_recipients(
    b: lettre::message::MessageBuilder,
    addrs: &Vec<EmailAddress>,
    kind: RecipientKind,
    Ghost(key): Ghost<Seq<char>>,
) -> (r: Result<lettre::message::MessageBuilder, MailError>)
    requires
        key == (match kind {
            RecipientKind::To => key_to(),
            RecipientKind::Cc => key_cc(),
            RecipientKind::Bcc => key_bcc(),
        }),
        mailbox_headers_only(builder_headers(b)),
        !builder_headers(b).contains_key(key),
        !builder_recipients(b).contains_key(key),
    ensures
        r is Ok <==> first_unparsable(addrs@) is None,
        first_unparsable(addrs@) matches Some(a) ==> r matches Err(e) && e matches MailError::InvalidAddress(t)
            && t@ == mailbox_error_text(a),
        r matches Ok(nb) ==> builder_headers(nb) == with_list(builder_headers(b), key, addrs@),
        r matches Ok(nb) ==> builder_recipients(nb) == with_email_list(builder_recipients(b), key, addrs@),
{
    let ghost base = builder_headers(b);
    let ghost base_r = builder_recipients(b);
    let mut b = b;
    let mut i: usize = 0;
    assert(addrs@.skip(0) =~= addrs@);
    assert(builder_headers(b) == with_list(base, key, addrs@.take(0)));
    assert(builder_recipients(b) == with_email_list(base_r, key, addrs@.take(0)));
    while i < addrs.len()
        invariant
            i <= addrs.len(),
            first_unparsable(addrs@) == first_unparsable(addrs@.skip(i as int)),
            forall|j: int| 0 <= j < i ==> mailbox_parses(#[trigger] addrs@[j]@),
            mailbox_headers_only(base),
            !base.contains_key(key),
            key == key_to() || key == key_cc() || key == key_bcc(),
            key == (match kind {
                RecipientKind::To => key_to(),
                RecipientKind::Cc => key_cc(),
                RecipientKind::Bcc => key_bcc(),
            }),
            builder_headers(b) == with_list(base, key, addrs@.take(i as int)),
            !base_r.contains_key(key),
            builder_recipients(b) == with_email_list(base_r, key, addrs@.take(i as int)),
        decreases addrs.len() - i,
    {
        assert(addrs@.skip(i as int)[0] == addrs@[i as int]);
        assert(addrs@.skip(i as int).drop_first() =~= addrs@.skip(i + 1));
        let _m = parse_mailbox(&addrs[i])?;
        let ghost before = builder_headers(b);
        let ghost before_r = builder_recipients(b);
        proof {
            assert(mailbox_headers_only(before)) by {
                assert forall|k: Seq<char>| #[trigger] before.contains_key(k) implies (k == key_from()
                    || k == key_to() || k == key_cc() || k == key_bcc()) && before[k].0 by {
                    if i > 0 && k == key {
                    } else {
                        assert(base.contains_key(k));
                    }
                }
            }
        }
        b = match kind {
            RecipientKind::To => lettre_builder_to(b, addrs[i].as_str()),
            RecipientKind::Cc => lettre_builder_cc(b, addrs[i].as_str()),
            RecipientKind::Bcc => lettre_builder_bcc(b, addrs[i].as_str()),
        };
        proof {
            let t = addrs@.take(i + 1);
            assert(t.drop_last() =~= addrs@.take(i as int));
            assert(renderings(t) =~= renderings(addrs@.take(i as int)).push(
                mailbox_rendering(addrs@[i as int]@),
            ));
            if i == 0 {
                assert(renderings(t) =~= seq![mailbox_rendering(addrs@[0]@)]);
                assert(!before.contains_key(key));
            } else {
                assert(before.contains_key(key));
                assert(before[key].1 == renderings(addrs@.take(i as int)));
            }
            assert(builder_headers(b) =~= with_list(base, key, t));
            assert(emails(t) =~= emails(addrs@.take(i as int)).push(mailbox_email(addrs@[i as int]@)));
            if i == 0 {
                assert(emails(t) =~= seq![mailbox_email(addrs@[0]@)]);
                assert(!before_r.contains_key(key));
            } else {
                assert(before_r.contains_key(key));
                assert(before_r[key] == emails(addrs@.take(i as int)));
            }
            assert(builder_recipients(b) =~= with_email_list(base_r, key, t));
        }
        i += 1;
    }
    assert(addrs@.skip(i as int) =~= Seq::<EmailAddress>::empty());
    assert(addrs@.take(i as int) =~= addrs@);
    Ok(b)
}

/// The entries `es` are those of the custom header map of `m`.
spec fn entries_of(m: OutgoingMail, es: Seq<(String, String)>) -> bool {
    &&& forall|j: int|
        0 <= j < es.len() ==> m.headers@.contains_key(#[trigger] es[j].0) && m.headers@[es[j].0]
            == es[j].1
    &&& forall|k: String| #[trigger] m.headers@.contains_key(k) ==> exists|j: int| 0 <= j < es.len() && es[j].0 == k
}

/// The header key of entry `j`.
spec fn key_at(es: Seq<(String, String)>, j: int) -> Seq<char> {
    header_key(es[j].0@)
}

/// Builder headers `vh` hold, under the key of entry `j`, the value of an
/// entry of that key.
spec fn key_held(vh: Map<Seq<char>, (bool, Seq<Seq<char>>)>, es: Seq<(String, String)>, j: int) -> bool {
    exists|j2: int| 0 <= j2 < es.len() && #[trigger] holds_entry(vh, key_at(es, j), es[j2])
}

/// Builder headers `vh` are `vs` with the custom headers `es` added: the
/// key of each entry holds the value of an entry of that key, and keys no
/// entry names are as in `vs`.
spec fn custom_headers_added(
    vs: Map<Seq<char>, (bool, Seq<Seq<char>>)>,
    vh: Map<Seq<char>, (bool, Seq<Seq<char>>)>,
    es: Seq<(String, String)>,
) -> bool {
    &&& forall|j: int| 0 <= j < es.len() ==> #[trigger] key_held(vh, es, j)
    &&& forall|k: Seq<char>|
        (forall|j: int| 0 <= j < es.len() ==> header_key(#[trigger] es[j].0@) != k) ==> (
        #[trigger] vh.contains_key(k) == vs.contains_key(k) && (vs.contains_key(k) ==> vh[k] == vs[k]))
}

/// Add each custom header to the builder as a raw header, in the order
/// given; the first name `lettre` refuses is the error.
fn add_custom_headers(
    b: lettre::message::MessageBuilder,
    entries: &Vec<(String, String)>,
    Ghost(m): Ghost<OutgoingMail>,
) -> (r: Result<lettre::message::MessageBuilder, MailError>)
    requires
        entries_of(m, entries@),
    ensures
        r matches Err(e) ==> names_bad_header(m, e),
        r is Ok ==> forall|j: int| 0 <= j < entries.len() ==> header_name_ok(#[trigger] entries@[j].0@),
        r matches Ok(nb) ==> custom_headers_added(builder_headers(b), builder_headers(nb), entries@),
        r matches Ok(nb) ==> (keeps_recipients(m) ==> builder_recipients(nb) == builder_recipients(b)),
{
    let ghost vs = builder_headers(b);
    let ghost rs = builder_recipients(b);
    let mut b = b;
    let mut i: usize = 0;
    while i < entries.len()
        invariant
            entries_of(m, entries@),
            i <= entries.len(),
            forall|j: int| 0 <= j < i ==> header_name_ok(#[trigger] entries@[j].0@),
            custom_headers_added(vs, builder_headers(b), entries@.take(i as int)),
            keeps_recipients(m) ==> builder_recipients(b) == rs,
        decreases entries.len() - i,
    {
        let ghost es = entries@;
        let ghost e = es[i as int];
        proof {
            assert(m.headers@.contains_key(e.0));
        }
        match header_name(&entries[i].0) {
            Ok(_) => {},
            Err(err) => {
                return Err(err);
            },
        }
        let ghost before = builder_headers(b);
        proof {
            if recipient_header(header_key(e.0@)) {
                assert(!keeps_recipients(m));
            }
        }
        b = lettre_builder_raw_header(b, entries[i].0.clone(), entries[i].1.clone());
        let ghost ii: int = i as int;
        i += 1;
        proof {
            let ki = header_key(e.0@);
            let old_es = es.take(ii);
            let new_es = es.take(i as int);
            assert(new_es[ii] == e);
            assert forall|j: int| 0 <= j < ii implies new_es[j] == #[trigger] old_es[j] by {}
            assert(builder_headers(b) == before.insert(ki, (false, seq![e.1@])));
            assert forall|k: Seq<char>|
                (forall|j: int| 0 <= j < new_es.len() ==> header_key(#[trigger] new_es[j].0@) != k)
                    implies (#[trigger] builder_headers(b).contains_key(k) == vs.contains_key(k) && (
                    vs.contains_key(k) ==> builder_headers(b)[k] == vs[k])) by {
                assert(header_key(new_es[ii].0@) != k);
                assert forall|j: int| 0 <= j < old_es.len() implies header_key(#[trigger] old_es[j].0@)
                    != k by {
                    assert(new_es[j] == old_es[j]);
                    assert(header_key(new_es[j].0@) != k);
                }
                assert(before.contains_key(k) == vs.contains_key(k));
                assert(vs.contains_key(k) ==> before[k] == vs[k]);
                assert(k != ki);
            }
            let nb = builder_headers(b);
            assert forall|j: int| 0 <= j < new_es.len() implies #[trigger] key_held(nb, new_es, j) by {
                let kj = key_at(new_es, j);
                if kj == ki {
                    assert(holds_entry(nb, kj, new_es[ii]));
                } else {
                    assert(old_es[j] == new_es[j]);
                    assert(key_at(old_es, j) == kj);
                    assert(key_held(before, old_es, j));
                    let j2 = choose|j2: int| 0 <= j2 < old_es.len() && #[trigger] holds_entry(before, key_at(old_es, j), old_es[j2]);
                    assert(old_es[j2] == new_es[j2]);
                    assert(holds_entry(nb, kj, new_es[j2]));
                }
            }
            assert(custom_headers_added(vs, builder_headers(b), new_es));
        }
    }
    assert(entries@.take(i as int) =~= entries@);
    Ok(b)
}

/// After the custom headers: the builder's `From` names a mailbox, a
/// transfer encoding over a plain body can carry it, and with sender and
/// recipients left alone the builder is ready.
proof fn lemma_custom_headers_fit_builder(
    msg: OutgoingMail,
    es: Seq<(String, String)>,
    vs: Map<Seq<char>, (bool, Seq<Seq<char>>)>,
    vh: Map<Seq<char>, (bool, Seq<Seq<char>>)>,
)
    requires
        entries_of(msg, es),
        custom_headers_added(vs, vh, es),
        vs == sent_headers(msg),
        message_buildable(msg),
    ensures
        sender_found(vh),
        msg.html_body is None ==> encoding_carries(vh, plain_text(msg)),
        keeps_addresses(msg) && msg.to.len() + msg.cc.len() + msg.bcc.len() >= 1 ==> builder_ready(vh),
{
    assert forall|k: Seq<char>| !has_custom(msg, k) implies (#[trigger] vh.contains_key(k)
        == vs.contains_key(k) && (vs.contains_key(k) ==> vh[k] == vs[k])) by {
        assert forall|j: int| 0 <= j < es.len() implies header_key(#[trigger] es[j].0@) != k by {
            assert(msg.headers@.contains_key(es[j].0));
        }
        assert(vh.contains_key(k) == vs.contains_key(k));
        assert(vs.contains_key(k) ==> vh[k] == vs[k]);
    }
    if has_custom(msg, key_from()) {
        let k = choose|k: String| #[trigger] msg.headers@.contains_key(k) && header_key(k@) == key_from();
        let j = choose|j: int| 0 <= j < es.len() && es[j].0 == k;
        assert(key_at(es, j) == key_from());
        assert(key_held(vh, es, j));
        let j2 = choose|j2: int| 0 <= j2 < es.len() && #[trigger] holds_entry(vh, key_at(es, j), es[j2]);
        let e = es[j2];
        assert(msg.headers@.contains_key(e.0));
        assert((e.0, msg.headers@[e.0]) == e);
        assert(entry_buildable(msg, e));
        if sender_given(msg) && !from_not_empty(vh) {
            let ks = choose|ks: String| #[trigger] msg.headers@.contains_key(ks) && header_key(ks@)
                == key_sender();
            let js = choose|js: int| 0 <= js < es.len() && es[js].0 == ks;
            assert(key_at(es, js) == key_sender());
            assert(key_held(vh, es, js));
            let js2 = choose|js2: int| 0 <= js2 < es.len() && #[trigger] holds_entry(vh, key_at(es, js), es[js2]);
            assert(msg.headers@.contains_key(es[js2].0));
            assert(mailbox_parses(msg.headers@[es[js2].0]@));
        }
    } else {
        assert(vh.contains_key(key_from()) == vs.contains_key(key_from()));
    }
    if msg.html_body is None {
        if has_custom(msg, key_transfer_encoding()) {
            let k = choose|k: String| #[trigger] msg.headers@.contains_key(k) && header_key(k@)
                == key_transfer_encoding();
            let j = choose|j: int| 0 <= j < es.len() && es[j].0 == k;
            assert(key_at(es, j) == key_transfer_encoding());
            assert(key_held(vh, es, j));
        let j2 = choose|j2: int| 0 <= j2 < es.len() && #[trigger] holds_entry(vh, key_at(es, j), es[j2]);
            let e = es[j2];
            assert(msg.headers@.contains_key(e.0));
            assert((e.0, msg.headers@[e.0]) == e);
            assert(entry_buildable(msg, e));
        } else {
            assert(vh.contains_key(key_transfer_encoding()) == vs.contains_key(key_transfer_encoding()));
        }
    }
    if keeps_addresses(msg) && msg.to.len() + msg.cc.len() + msg.bcc.len() >= 1 {
        assert forall|k: Seq<char>|
            (k == key_from() || k == key_sender() || k == key_to() || k == key_cc() || k == key_bcc())
                implies !has_custom(msg, k) by {
            if has_custom(msg, k) {
                let k2 = choose|k2: String| #[trigger] msg.headers@.contains_key(k2) && header_key(k2@) == k;
            }
        }
        assert(vh.contains_key(key_from()) == vs.contains_key(key_from()));
        assert(vh.contains_key(key_to()) == vs.contains_key(key_to()));
        assert(vh.contains_key(key_cc()) == vs.contains_key(key_cc()));
        assert(vh.contains_key(key_bcc()) == vs.contains_key(key_bcc()));
        assert(vh.contains_key(key_sender()) == vs.contains_key(key_sender()));
        assert(renderings(msg.to@).len() == msg.to@.len());
        assert(renderings(msg.cc@).len() == msg.cc@.len());
        assert(renderings(msg.bcc@).len() == msg.bcc@.len());
    }
}

/// A message built from the builder headers `vh` carries the mail.
proof fn lemma_custom_headers_carried(
    msg: OutgoingMail,
    es: Seq<(String, String)>,
    vs: Map<Seq<char>, (bool, Seq<Seq<char>>)>,
    vh: Map<Seq<char>, (bool, Seq<Seq<char>>)>,
    mh: Map<Seq<char>, (bool, Seq<Seq<char>>)>,
)
    requires
        entries_of(msg, es),
        custom_headers_added(vs, vh, es),
        vs == sent_headers(msg),
        headers_carried(vh, mh),
    ensures
        carries_mail(msg, mh),
{
    let sh = sent_headers(msg);
    assert forall|k: Seq<char>|
        (k == key_from() || k == key_to() || k == key_cc() || k == key_subject()) && !has_custom(msg, k)
            implies (#[trigger] mh.contains_key(k) == sh.contains_key(k) && (sh.contains_key(k)
        ==> mh[k] == sh[k])) by {
        assert forall|j: int| 0 <= j < es.len() implies header_key(#[trigger] es[j].0@) != k by {
            assert(msg.headers@.contains_key(es[j].0));
        }
        assert(vh.contains_key(k) == vs.contains_key(k));
        assert(mh.contains_key(k) == vh.contains_key(k));
    }
    assert forall|k: String|
        #[trigger] msg.headers@.contains_key(k) && !lettre_managed(header_key(k@)) implies mh.contains_key(
            header_key(k@),
        ) && exists|k2: String|
            #[trigger] msg.headers@.contains_key(k2) && header_key(k2@) == header_key(k@) && mh[header_key(
                k@,
            )] == (false, seq![msg.headers@[k2]@]) by {
        let hk = header_key(k@);
        let j = choose|j: int| 0 <= j < es.len() && es[j].0 == k;
        assert(key_at(es, j) == hk);
        assert(key_held(vh, es, j));
        let j2 = choose|j2: int| 0 <= j2 < es.len() && #[trigger] holds_entry(vh, key_at(es, j), es[j2]);
        let k2 = es[j2].0;
        assert(msg.headers@.contains_key(k2));
        assert(mh.contains_key(hk) == vh.contains_key(hk));
        assert(header_key(k2@) == hk);
    }
}

/// Assemble the `lettre` message for an outgoing mail: sender, `To`, `Cc`
/// and `Bcc` (the first address that is not a mailbox is the error),
/// subject, each custom header (a name `lettre` refuses is an
/// `InvalidMessage` error naming the key; a custom header replaces an
/// assembled one of the same name), and the body shape that [`mail_body`]
/// picks. Given mailboxes, at least one recipient and valid custom header
/// names, none of which replaces a sender or recipient header, the message
/// is built. A built message carries the assembled headers that no custom
/// header replaced and every custom header, and, when no custom header
/// replaces a recipient list, its envelope lists the `To`, `Cc` and `Bcc`
/// addresses in that order. `lettre` panics on a custom `From` that names
/// no mailbox (with no custom `Sender` to stand in) and on a custom
/// transfer encoding that cannot carry a plain text body; `requires` leaves those mails out ([`try_build_message`]
/// takes any mail).
pub fn build_message(msg: &OutgoingMail) -> (r: Result<lettre::Message, MailError>)
    requires
        message_buildable(*msg),
    ensures
        build_outcome(*msg, r),
{
    let _from = parse_mailbox(&msg.from)?;
    let mut b = lettre_message_builder();
    b = lettre_builder_from(b, msg.from.as_str());
    let ghost v0 = builder_headers(b);
    assert(v0 =~= Map::empty().insert(key_from(), (true, seq![mailbox_rendering(msg.from@)])));
    b = add_recipients(b, &msg.to, RecipientKind::To, Ghost(key_to()))?;
    let ghost v1 = builder_headers(b);
    proof {
        assert forall|k: Seq<char>| #[trigger] v1.contains_key(k) implies (k == key_from() || k
            == key_to() || k == key_cc() || k == key_bcc()) && v1[k].0 by {
            if k != key_to() {
                assert(v0.contains_key(k));
            }
        }
        assert(!v1.contains_key(key_cc()));
    }
    b = add_recipients(b, &msg.cc, RecipientKind::Cc, Ghost(key_cc()))?;
    let ghost v2 = builder_headers(b);
    proof {
        assert forall|k: Seq<char>| #[trigger] v2.contains_key(k) implies (k == key_from() || k
            == key_to() || k == key_cc() || k == key_bcc()) && v2[k].0 by {
            if k != key_cc() {
                assert(v1.contains_key(k));
            }
        }
        assert(!v2.contains_key(key_bcc()));
    }
    b = add_recipients(b, &msg.bcc, RecipientKind::Bcc, Ghost(key_bcc()))?;
    let ghost va = builder_headers(b);
    assert(va == address_headers(*msg));
    b = lettre_builder_subject(b, msg.subject.as_str());
    let ghost vs = builder_headers(b);
    assert(vs == sent_headers(*msg));
    let ghost rs = builder_recipients(b);
    assert(envelope_of(rs) =~= emails(msg.to@) + emails(msg.cc@) + emails(msg.bcc@));
    let entries = string_map_entries(&msg.headers);
    b = add_custom_headers(b, &entries, Ghost(*msg))?;
    let ghost vh = builder_headers(b);
    proof {
        lemma_custom_headers_fit_builder(*msg, entries@, vs, vh);
    }
    let built = match mail_body(clone_text(&msg.text_body), clone_text(&msg.html_body)) {
        MailBody::Alternative { text, html } => lettre_builder_multipart(
            b,
            lettre_alternative_plain_html(text, html),
        ),
        MailBody::Text(text) => lettre_builder_body(b, text),
        MailBody::Html(html) => lettre_builder_singlepart(b, lettre_html_part(html)),
        MailBody::Empty => lettre_builder_body(b, String::new()),
    };
    match built {
        Ok(m) => {
            proof {
                lemma_custom_headers_carried(*msg, entries@, vs, vh, message_headers(m));
            }
            Ok(m)
        },
        Err(t) => Err(MailError::InvalidMessage(t)),
    }
}

/// Whether a header name is, up to ASCII case, the lower-case `key`.
fn header_key_is(name: &String, key: &Vec<char>) -> (r: bool)
    requires
        forall|i: int| 0 <= i < key@.len() ==> ascii_lower(#[trigger] key@[i]) == key@[i],
    ensures
        r == (header_key(name@) == key@),
{
    let cs = crate::text::chars_of(name.as_str());
    assert(cs@.subrange(0, cs@.len() as int) =~= cs@);
    let r = crate::text::range_eq_ignore_ascii_case(&cs, 0, cs.len(), key);
    proof {
        if r {
            assert(header_key(name@) =~= key@);
        } else if header_key(name@) == key@ {
            assert forall|i: int| 0 <= i < name@.len() implies ascii_lower(#[trigger] name@[i])
                == ascii_lower(key@[i]) by {
                assert(header_key(name@)[i] == ascii_lower(name@[i]));
            }
        }
    }
    r
}

/// The encoding a `Content-Transfer-Encoding` value names.
fn transfer_encoding_of(value: &String) -> (r: Option<TransferEncoding>)
    ensures
        r == transfer_encoding_named(value@),
{
    let cs = crate::text::chars_of(value.as_str());
    assert(cs@.subrange(0, cs@.len() as int) =~= cs@);
    let seven: Vec<char> = vec!['7', 'b', 'i', 't'];
    let eight: Vec<char> = vec!['8', 'b', 'i', 't'];
    let quoted: Vec<char> = vec![
        'q', 'u', 'o', 't', 'e', 'd', '-', 'p', 'r', 'i', 'n', 't', 'a', 'b', 'l', 'e',
    ];
    let base64: Vec<char> = vec!['b', 'a', 's', 'e', '6', '4'];
    let binary: Vec<char> = vec!['b', 'i', 'n', 'a', 'r', 'y'];
    if crate::text::range_eq(&cs, 0, cs.len(), &seven) {
        Some(TransferEncoding::SevenBit)
    } else if crate::text::range_eq(&cs, 0, cs.len(), &eight) {
        Some(TransferEncoding::EightBit)
    } else if crate::text::range_eq(&cs, 0, cs.len(), &quoted) {
        Some(TransferEncoding::QuotedPrintable)
    } else if crate::text::range_eq(&cs, 0, cs.len(), &base64) {
        Some(TransferEncoding::Base64)
    } else if crate::text::range_eq(&cs, 0, cs.len(), &binary) {
        Some(TransferEncoding::Binary)
    } else {
        None
    }
}

/// Whether `lettre` can build the message for the custom header `(name,
/// value)` without panicking (see [`entry_buildable`]).
fn custom_header_buildable(msg: &OutgoingMail, name: &String, value: &String, sender_ok: bool) -> (r:
    bool)
    requires
        sender_ok == sender_given(*msg),
    ensures
        r == entry_buildable(*msg, (*name, *value)),
{
    let from_key: Vec<char> = vec!['f', 'r', 'o', 'm'];
    assert(from_key@ =~= key_from());
    if header_key_is(name, &from_key) {
        match lettre_mailbox_list(value.as_str()) {
            Some(list) => {
                if list.len() == 0 && !sender_ok {
                    return false;
                }
            },
            None => {},
        }
    }
    let cte_key: Vec<char> = vec![
        'c', 'o', 'n', 't', 'e', 'n', 't', '-', 't', 'r', 'a', 'n', 's', 'f', 'e', 'r', '-', 'e',
        'n', 'c', 'o', 'd', 'i', 'n', 'g',
    ];
    assert(cte_key@ =~= key_transfer_encoding());
    if msg.html_body.is_none() && header_key_is(name, &cte_key) {
        match transfer_encoding_of(value) {
            Some(e) => {
                let empty = String::new();
                let text: &str = match &msg.text_body {
                    Some(t) => t.as_str(),
                    None => empty.as_str(),
                };
                return lettre_body_fits(e, text);
            },
            None => {},
        }
    }
    true
}

/// Whether the mail has a custom `Sender` header and each one reads as a
/// mailbox ([`sender_given`]).
fn custom_sender_given(msg: &OutgoingMail, entries: &Vec<(String, String)>) -> (r: bool)
    requires
        entries_of(*msg, entries@),
    ensures
        r == sender_given(*msg),
{
    let sender_key: Vec<char> = vec!['s', 'e', 'n', 'd', 'e', 'r'];
    assert(sender_key@ =~= key_sender());
    let mut found = false;
    let mut i: usize = 0;
    while i < entries.len()
        invariant
            entries_of(*msg, entries@),
            sender_key@ == key_sender(),
            i <= entries.len(),
            found <==> exists|j: int| 0 <= j < i && header_key(#[trigger] entries@[j].0@) == key_sender(),
            forall|j: int|
                0 <= j < i && header_key(#[trigger] entries@[j].0@) == key_sender() ==> mailbox_parses(
                    entries@[j].1@,
                ),
        decreases entries.len() - i,
    {
        if header_key_is(&entries[i].0, &sender_key) {
            proof {
                assert(msg.headers@.contains_key(entries@[i as int].0));
            }
            match lettre_mailbox_from_str(entries[i].1.as_str()) {
                Ok(_) => {},
                Err(_) => {
                    proof {
                        let k = entries@[i as int].0;
                        assert(msg.headers@.contains_key(k) && header_key(k@) == key_sender());
                        assert(!mailbox_parses(msg.headers@[k]@));
                    }
                    return false;
                },
            }
            found = true;
        }
        i += 1;
    }
    proof {
        if found {
            let j = choose|j: int| 0 <= j < entries.len() && header_key(#[trigger] entries@[j].0@) == key_sender();
            assert(msg.headers@.contains_key(entries@[j].0));
            assert forall|k: String|
                #[trigger] msg.headers@.contains_key(k) && header_key(k@) == key_sender() implies mailbox_parses(
                msg.headers@[k]@,
            ) by {
                let jk = choose|jk: int| 0 <= jk < entries.len() && entries@[jk].0 == k;
                assert(header_key(entries@[jk].0@) == key_sender());
            }
        } else if has_custom(*msg, key_sender()) {
            let k = choose|k: String| #[trigger] msg.headers@.contains_key(k) && header_key(k@) == key_sender();
            let jk = choose|jk: int| 0 <= jk < entries.len() && entries@[jk].0 == k;
            assert(header_key(entries@[jk].0@) == key_sender());
        }
    }
    found
}

/// [`build_message`] for any mail: `None` for a mail `lettre` would panic
/// on while building it (a custom `From` that names no mailbox with no
/// custom `Sender` to stand in, or over a
/// plain-text or empty body a custom `Content-Transfer-Encoding` that
/// cannot carry the text), else what [`build_message`] returns.
pub fn try_build_message(msg: &OutgoingMail) -> (r: Option<Result<lettre::Message, MailError>>)
    ensures
        r is None <==> !message_buildable(*msg),
        r matches Some(x) ==> build_outcome(*msg, x),
{
    let entries = string_map_entries(&msg.headers);
    let sender_ok = custom_sender_given(msg, &entries);
    let mut i: usize = 0;
    while i < entries.len()
        invariant
            i <= entries.len(),
            sender_ok == sender_given(*msg),
            forall|j: int|
                0 <= j < entries.len() ==> msg.headers@.contains_key(#[trigger] entries@[j].0)
                    && msg.headers@[entries@[j].0] == entries@[j].1,
            forall|j: int| 0 <= j < i ==> entry_buildable(*msg, #[trigger] entries@[j]),
        decreases entries.len() - i,
    {
        if !custom_header_buildable(msg, &entries[i].0, &entries[i].1, sender_ok) {
            proof {
                let e = entries@[i as int];
                assert(msg.headers@.contains_key(e.0));
                assert((e.0, msg.headers@[e.0]) == e);
            }
            return None;
        }
        i += 1;
    }
    assert forall|k: String| #[trigger] msg.headers@.contains_key(k) implies entry_buildable(
        *msg,
        (k, msg.headers@[k]),
    ) by {
        let j = choose|j: int| 0 <= j < entries.len() && entries@[j].0 == k;
        assert((k, msg.headers@[k]) == entries@[j]);
    }
    Some(build_message(msg))
}

/// A mailer that records every message it is asked to send, for tests.
pub struct CapturingMailer {
    sent: Vec<OutgoingMail>,
}

impl View for CapturingMailer {
    type V = Seq<OutgoingMail>;

    closed spec fn view(&self) -> Seq<OutgoingMail> {
        self.sent@
    }
}

impl CapturingMailer {
    pub fn new() -> (r: Self)
        ensures
            r@ == Seq::<OutgoingMail>::empty(),
    {
        CapturingMailer { sent: Vec::new() }
    }

    /// Record `msg` as sent; never fails.
    pub fn send(&mut self, msg: OutgoingMail) -> (r: Result<(), MailError>)
        ensures
            final(self)@ == old(self)@.push(msg),
            r is Ok,
    {
        self.sent.push(msg);
        Ok(())
    }

    /// Copies of the messages sent so far, oldest first.
    pub fn messages(&self) -> (r: Vec<OutgoingMail>)
        ensures
            r.len() == self@.len(),
            forall|i: int| 0 <= i < r.len() ==> same_mail(#[trigger] r@[i], self@[i]),
    {
        let mut r: Vec<OutgoingMail> = Vec::new();
        let mut i: usize = 0;
        while i < self.sent.len()
            invariant
                i <= self.sent.len(),
                r.len() == i,
                forall|j: int| 0 <= j < i ==> same_mail(#[trigger] r@[j], self.sent@[j]),
            decreases self.sent.len() - i,
        {
            r.push(self.sent[i].clone());
            i += 1;
        }
        r
    }

    /// Number of messages sent so far.
    pub fn count(&self) -> (r: usize)
        ensures
            r == self@.len(),
    {
        self.sent.len()
    }

    /// Forget every recorded message.
    pub fn clear(&mut self)
        ensures
            final(self)@ == Seq::<OutgoingMail>::empty(),
    {
        self.sent.clear();
    }
}

impl Default for CapturingMailer {
    fn default() -> (r: Self)
        ensures
            r@ == Seq::<OutgoingMail>::empty(),
    {
        CapturingMailer::new()
    }
}

#[verifier::external_type_specification]
#[verifier::external_body]
pub struct ExSmtpTransportBuilder(lettre::transport::smtp::AsyncSmtpTransportBuilder);

#[verifier::external_type_specification]
#[verifier::external_body]
pub struct ExSmtpCredentials(lettre::transport::smtp::authentication::Credentials);

/// How the SMTP connection is secured.
#[derive(Debug, Clone, Copy, PartialEq, Eq, Structural)]
pub enum TlsMode {
    /// Plain connection upgraded with STARTTLS (submission port).
    Required,
    /// TLS from the first byte (submissions port).
    Wrapper,
    /// No TLS at all (`TlsMode::None` of the settings file).
    NoTls,
}

/// SMTP relay settings.
#[derive(Debug, Clone)]
pub struct SmtpConfig {
    pub host: String,
    pub port: u16,
    pub username: Option<String>,
    pub password: Option<String>,
    pub tls: TlsMode,
}

/// What a transport builder holds that this library sets: the server host,
/// the port, how the connection is secured, and the credentials (user name
/// and password) if any.
pub uninterp spec fn transport_settings(
    b: lettre::transport::smtp::AsyncSmtpTransportBuilder,
) -> (Seq<char>, u16, TlsMode, Option<(Seq<char>, Seq<char>)>);

/// The user name and the password that a `Credentials` value holds.
pub uninterp spec fn credential_parts(
    c: lettre::transport::smtp::authentication::Credentials,
) -> (Seq<char>, Seq<char>);

/// The plain SMTP port.
pub open spec fn smtp_port() -> u16 {
    25
}

/// The mail submission port, used with STARTTLS.
pub open spec fn submission_port() -> u16 {
    587
}

/// The mail submission port with TLS from the first byte.
pub open spec fn submissions_port() -> u16 {
    465
}

/// Settings of a builder toward `host` on `port`, secured by `tls`, without
/// credentials.
pub open spec fn fresh_settings(host: Seq<char>, port: u16, tls: TlsMode) -> (
    Seq<char>,
    u16,
    TlsMode,
    Option<(Seq<char>, Seq<char>)>,
) {
    (host, port, tls, None)
}

/// `s` with its port replaced.
pub open spec fn with_port(
    s: (Seq<char>, u16, TlsMode, Option<(Seq<char>, Seq<char>)>),
    port: u16,
) -> (Seq<char>, u16, TlsMode, Option<(Seq<char>, Seq<char>)>) {
    (s.0, port, s.2, s.3)
}

/// `s` with its credentials replaced.
pub open spec fn with_credentials(
    s: (Seq<char>, u16, TlsMode, Option<(Seq<char>, Seq<char>)>),
    creds: (Seq<char>, Seq<char>),
) -> (Seq<char>, u16, TlsMode, Option<(Seq<char>, Seq<char>)>) {
    (s.0, s.1, s.2, Some(creds))
}

/// The settings that `config` asks for: its host, its port and its TLS
/// mode, with credentials exactly when both a user name and a password are
/// given.
pub open spec fn configured_settings(config: SmtpConfig) -> (
    Seq<char>,
    u16,
    TlsMode,
    Option<(Seq<char>, Seq<char>)>,
) {
    let creds = match (config.username, config.password) {
        (Some(u), Some(p)) => Some((u@, p@)),
        _ => None,
    };
    (config.host@, config.port, config.tls, creds)
}

/// `AsyncSmtpTransport::<Tokio1Executor>::starttls_relay`, its error
/// rendered with `to_string`. Whether it succeeds depends on the TLS
/// library of the machine as well as on the host, so that is left unsaid;
/// a builder it returns is toward the host on the submission port, upgraded
/// with STARTTLS, without credentials.
#[verifier::external_body]
fn lettre_starttls_relay(host: &str) -> (r: Result<lettre::transport::smtp::AsyncSmtpTransportBuilder, String>)
    ensures
        r matches Ok(b) ==> transport_settings(b) == fresh_settings(host@, submission_port(), TlsMode::Required),
{
    match lettre::AsyncSmtpTransport::<lettre::Tokio1Executor>::starttls_relay(host) {
        Ok(b) => Ok(b),
        Err(e) => Err(e.to_string()),
    }
}

/// `AsyncSmtpTransport::<Tokio1Executor>::relay`, its error rendered with
/// `to_string`. Whether it succeeds depends on the TLS library of the
/// machine as well as on the host, so that is left unsaid; a builder it
/// returns is toward the host on the submissions port, with TLS from the
/// first byte, without credentials.
#[verifier::external_body]
fn lettre_relay(host: &str) -> (r: Result<lettre::transport::smtp::AsyncSmtpTransportBuilder, String>)
    ensures
        r matches Ok(b) ==> transport_settings(b) == fresh_settings(host@, submissions_port(), TlsMode::Wrapper),
{
    match lettre::AsyncSmtpTransport::<lettre::Tokio1Executor>::relay(host) {
        Ok(b) => Ok(b),
        Err(e) => Err(e.to_string()),
    }
}

/// `AsyncSmtpTransport::<Tokio1Executor>::builder_dangerous`: an
/// unencrypted builder toward the host on the plain SMTP port, without
/// credentials; it cannot fail.
#[verifier::external_body]
fn lettre_builder_dangerous(host: &str) -> (r: lettre::transport::smtp::AsyncSmtpTransportBuilder)
    ensures
        transport_settings(r) == fresh_settings(host@, smtp_port(), TlsMode::NoTls),
{
    lettre::AsyncSmtpTransport::<lettre::Tokio1Executor>::builder_dangerous(host)
}

/// `AsyncSmtpTransportBuilder::port`: the same builder with the port set.
#[verifier::external_body]
fn lettre_builder_port(
    b: lettre::transport::smtp::AsyncSmtpTransportBuilder,
    port: u16,
) -> (r: lettre::transport::smtp::AsyncSmtpTransportBuilder)
    ensures
        transport_settings(r) == with_port(transport_settings(b), port),
{
    b.port(port)
}

/// `Credentials::new`: credentials holding the user name and the password.
#[verifier::external_body]
fn lettre_credentials(
    username: String,
    password: String,
) -> (r: lettre::transport::smtp::authentication::Credentials)
    ensures
        credential_parts(r) == (username@, password@),
{
    lettre::transport::smtp::authentication::Credentials::new(username, password)
}

/// `AsyncSmtpTransportBuilder::credentials`: the same builder with the
/// credentials set.
#[verifier::external_body]
fn lettre_builder_credentials(
    b: lettre::transport::smtp::AsyncSmtpTransportBuilder,
    c: lettre::transport::smtp::authentication::Credentials,
) -> (r: lettre::transport::smtp::AsyncSmtpTransportBuilder)
    ensures
        transport_settings(r) == with_credentials(transport_settings(b), credential_parts(c)),
{
    b.credentials(c)
}

/// The SMTP transport builder for a relay configuration: STARTTLS or
/// implicit TLS toward the host (their TLS setup failing is a
/// `ConnectFailed` error), or an unencrypted connection, which cannot fail;
/// then the configured port, and the credentials when both a user name and
/// a password are given. Building the transport from it is the caller's
/// last step.
pub fn smtp_transport_builder(config: SmtpConfig) -> (r: Result<
    lettre::transport::smtp::AsyncSmtpTransportBuilder,
    MailError,
>)
    ensures
        config.tls == TlsMode::NoTls ==> r is Ok,
        r matches Err(e) ==> e is ConnectFailed,
        r matches Ok(b) ==> transport_settings(b) == configured_settings(config),
        r matches Ok(b) ==> transport_settings(b).0 == config.host@ && transport_settings(b).1
            == config.port && transport_settings(b).2 == config.tls,
{
    let builder = match config.tls {
        TlsMode::Required => match lettre_starttls_relay(config.host.as_str()) {
            Ok(b) => b,
            Err(t) => {
                return Err(MailError::ConnectFailed(t));
            },
        },
        TlsMode::Wrapper => match lettre_relay(config.host.as_str()) {
            Ok(b) => b,
            Err(t) => {
                return Err(MailError::ConnectFailed(t));
            },
        },
        TlsMode::NoTls => lettre_builder_dangerous(config.host.as_str()),
    };
    let builder = lettre_builder_port(builder, config.port);
    match (config.username, config.password) {
        (Some(user), Some(pass)) => Ok(
            lettre_builder_credentials(builder, lettre_credentials(user, pass)),
        ),
        _ => Ok(builder),
    }
}

/// A transport builder is made as the configuration says: toward the
/// configured host and port, secured by the configured TLS mode (STARTTLS
/// for `Required`, TLS from the first byte for `Wrapper`, none for
/// `NoTls`), and with credentials exactly when both a user name and a
/// password are given, holding those two.
pub proof fn lemma_transport_follows_config(
    config: SmtpConfig,
    b: lettre::transport::smtp::AsyncSmtpTransportBuilder,
)
    requires
        transport_settings(b) == configured_settings(config),
    ensures
        transport_settings(b).0 == config.host@,
        transport_settings(b).1 == config.port,
        transport_settings(b).2 == config.tls,
        transport_settings(b).3 is Some <==> (config.username is Some && config.password is Some),
        transport_settings(b).3 matches Some(c) ==> (c.0 == config.username->0@ && c.1
            == config.password->0@),
{
}

} // verus!
