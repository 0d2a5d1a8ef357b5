use std::collections::BTreeMap;

use kikan::mail::{
    build_message, header_name, mail_body, parse_mailbox, smtp_transport_builder, try_build_message,
    CapturingMailer,
    EmailAddress, MailBody, MailError, OutgoingMail, SmtpConfig, TlsMode,
};

fn test_mail() -> OutgoingMail {
    OutgoingMail {
        from: EmailAddress::parse("sender@example.com").unwrap(),
        to: vec![EmailAddress::parse("dest@example.com").unwrap()],
        cc: vec![],
        bcc: vec![],
        subject: "Test".into(),
        text_body: Some("Hello".into()),
        html_body: None,
        headers: BTreeMap::new(),
    }
}

#[test]
fn email_address_parse_accepts_and_rejects() {
    let a = EmailAddress::parse("user@example.com").unwrap();
    assert_eq!(a.as_str(), "user@example.com");
    assert!(matches!(
        EmailAddress::parse("not-an-email"),
        Err(MailError::InvalidAddress(_))
    ));
    assert!(matches!(EmailAddress::parse(""), Err(MailError::InvalidAddress(_))));
}

#[test]
fn mailbox_of_address() {
    let a = EmailAddress::parse("cc@example.com").unwrap();
    let m = parse_mailbox(&a).unwrap();
    assert_eq!(m.email.to_string(), "cc@example.com");
}

#[test]
fn build_text_only_message() {
    let msg = test_mail();
    let result = build_message(&msg);
    assert!(result.is_ok());
}

#[test]
fn build_html_only_message() {
    let mut msg = test_mail();
    msg.text_body = None;
    msg.html_body = Some("<p>Hello</p>".into());
    assert!(build_message(&msg).is_ok());
}

#[test]
fn build_multipart_message() {
    let mut msg = test_mail();
    msg.html_body = Some("<p>Hello</p>".into());
    assert!(build_message(&msg).is_ok());
}

#[test]
fn build_empty_body_message() {
    let mut msg = test_mail();
    msg.text_body = None;
    msg.html_body = None;
    assert!(build_message(&msg).is_ok());
}

#[test]
fn build_message_with_cc_bcc() {
    let mut msg = test_mail();
    msg.cc = vec![EmailAddress::parse("cc@example.com").unwrap()];
    msg.bcc = vec![EmailAddress::parse("bcc@example.com").unwrap()];
    assert!(build_message(&msg).is_ok());
}

#[test]
fn build_message_with_custom_headers() {
    let mut msg = test_mail();
    msg.headers
        .insert("X-Mokumo-Kind".into(), "password-reset".into());
    let message = build_message(&msg).unwrap();
    let formatted = message.formatted();
    let raw = String::from_utf8_lossy(&formatted);
    assert!(raw.contains("X-Mokumo-Kind"));
    assert!(raw.contains("password-reset"));
}

#[test]
fn build_message_rejects_invalid_header_name() {
    let mut msg = test_mail();
    msg.headers.insert("Bad Header:".into(), "value".into());
    assert!(matches!(
        build_message(&msg),
        Err(MailError::InvalidMessage(_))
    ));
}

#[test]
fn build_message_without_recipients_is_refused_by_lettre() {
    let mut msg = test_mail();
    msg.to = vec![];
    assert!(matches!(build_message(&msg), Err(MailError::InvalidMessage(_))));
}

#[test]
fn build_message_multipart_has_both_parts() {
    let mut msg = test_mail();
    msg.html_body = Some("<p>Hello</p>".into());
    let raw = String::from_utf8_lossy(&build_message(&msg).unwrap().formatted()).to_string();
    assert!(raw.contains("multipart/alternative"));
    assert!(raw.contains("text/plain"));
    assert!(raw.contains("text/html"));
    assert!(raw.contains("Subject: Test"));
}

#[test]
fn header_name_rejects_invalid_names() {
    assert!(header_name(&"X-Mokumo-Kind".to_string()).is_ok());
    assert_eq!(
        header_name(&"Bad Header:".to_string()).unwrap_err(),
        MailError::InvalidMessage("invalid header name: Bad Header:".to_string())
    );
    assert!(header_name(&String::new()).is_err());
    assert!(header_name(&"Ünicode".to_string()).is_err());
    assert!(header_name(&"X".repeat(77)).is_err());
    assert!(header_name(&"X".repeat(76)).is_ok());
}

#[test]
fn mail_body_shapes() {
    assert!(matches!(
        mail_body(Some("t".into()), Some("<p>h</p>".into())),
        MailBody::Alternative { ref text, ref html } if text == "t" && html == "<p>h</p>"
    ));
    assert!(matches!(mail_body(Some("t".into()), None), MailBody::Text(ref t) if t == "t"));
    assert!(matches!(mail_body(None, Some("h".into())), MailBody::Html(ref h) if h == "h"));
    assert!(matches!(mail_body(None, None), MailBody::Empty));
}

#[test]
fn capturing_mailer_records_and_clears() {
    let mut m = CapturingMailer::new();
    assert_eq!(m.count(), 0);
    let mut second = test_mail();
    second.subject = "Second".into();
    second.headers.insert("X-Mokumo-Kind".into(), "password-reset".into());
    assert!(m.send(test_mail()).is_ok());
    assert!(m.send(second).is_ok());
    assert_eq!(m.count(), 2);
    let msgs = m.messages();
    assert_eq!(msgs.len(), 2);
    assert_eq!(msgs[0].subject, "Test");
    assert_eq!(msgs[1].subject, "Second");
    assert_eq!(msgs[1].headers.get("X-Mokumo-Kind").map(String::as_str), Some("password-reset"));
    assert_eq!(msgs[0].to[0].as_str(), "dest@example.com");
    m.clear();
    assert_eq!(m.count(), 0);
    assert!(m.messages().is_empty());
}

#[test]
fn capturing_mailer_default_is_empty() {
    let m = CapturingMailer::default();
    assert_eq!(m.count(), 0);
}

#[test]
fn outgoing_mail_clone_keeps_fields() {
    let mut msg = test_mail();
    msg.cc = vec![EmailAddress::parse("cc@example.com").unwrap()];
    msg.html_body = Some("<p>Hello</p>".into());
    let c = msg.clone();
    assert_eq!(c.from, msg.from);
    assert_eq!(c.cc, msg.cc);
    assert_eq!(c.html_body, msg.html_body);
    assert_eq!(c.text_body, msg.text_body);
}

#[test]
fn lettre_mailer_new_no_tls() {
    let config = SmtpConfig {
        host: "127.0.0.1".into(),
        port: 2525,
        username: None,
        password: None,
        tls: TlsMode::NoTls,
    };
    assert!(smtp_transport_builder(config).is_ok());
}

#[test]
fn lettre_mailer_new_with_credentials() {
    let config = SmtpConfig {
        host: "127.0.0.1".into(),
        port: 2525,
        username: Some("user".into()),
        password: Some("pass".into()),
        tls: TlsMode::NoTls,
    };
    assert!(smtp_transport_builder(config).is_ok());
}

#[test]
fn smtp_builder_with_tls_modes() {
    for tls in [TlsMode::Required, TlsMode::Wrapper] {
        let config = SmtpConfig {
            host: "smtp.example.com".into(),
            port: 587,
            username: Some("user".into()),
            password: None,
            tls,
        };
        match smtp_transport_builder(config) {
            Ok(_) => {}
            Err(e) => assert!(matches!(e, MailError::ConnectFailed(_))),
        }
    }
}

#[test]
fn envelope_lists_to_cc_and_bcc_in_order() {
    let mut msg = test_mail();
    msg.cc = vec![EmailAddress::parse("cc@example.com").unwrap()];
    msg.bcc = vec![EmailAddress::parse("bcc@example.com").unwrap()];
    let message = build_message(&msg).unwrap();
    let recipients: Vec<String> = message.envelope().to().iter().map(|a| a.to_string()).collect();
    assert_eq!(recipients, vec!["dest@example.com", "cc@example.com", "bcc@example.com"]);
    let raw = String::from_utf8_lossy(&message.formatted()).to_string();
    assert!(raw.contains("Cc: cc@example.com"));
    assert!(!raw.contains("bcc@example.com"));
}

#[test]
fn build_message_carries_subject_and_sender() {
    let message = build_message(&test_mail()).unwrap();
    let raw = String::from_utf8_lossy(&message.formatted()).to_string();
    assert!(raw.contains("Subject: Test"));
    assert!(raw.contains("From: sender@example.com"));
    assert!(raw.contains("To: dest@example.com"));
}

#[test]
fn build_message_without_recipient_fails() {
    let mut msg = test_mail();
    msg.to = vec![];
    assert!(matches!(build_message(&msg), Err(MailError::InvalidMessage(_))));
}

#[test]
fn invalid_header_name_error_names_the_key() {
    let mut msg = test_mail();
    msg.headers.insert("Bad Header:".into(), "x".into());
    match build_message(&msg) {
        Err(MailError::InvalidMessage(t)) => assert_eq!(t, "invalid header name: Bad Header:"),
        other => panic!("unexpected result: {:?}", other.map(|_| ())),
    }
}

#[test]
fn smtp_builder_uses_configured_port_and_credentials() {
    let config = SmtpConfig {
        host: "127.0.0.1".into(),
        port: 2525,
        username: Some("user".into()),
        password: Some("pass".into()),
        tls: TlsMode::NoTls,
    };
    let shown = format!("{:?}", smtp_transport_builder(config).unwrap());
    assert!(shown.contains("server: \"127.0.0.1\""));
    assert!(shown.contains("port: 2525"));
    assert!(shown.contains("credentials: Some("));
}

#[test]
fn smtp_builder_without_password_has_no_credentials() {
    let config = SmtpConfig {
        host: "localhost".into(),
        port: 25,
        username: Some("user".into()),
        password: None,
        tls: TlsMode::NoTls,
    };
    let shown = format!("{:?}", smtp_transport_builder(config).unwrap());
    assert!(shown.contains("credentials: None"));
}

#[test]
fn custom_seven_bit_encoding_over_ascii_text_builds() {
    let mut msg = test_mail();
    msg.headers.insert("Content-Transfer-Encoding".into(), "7bit".into());
    assert!(build_message(&msg).is_ok());
    assert!(matches!(try_build_message(&msg), Some(Ok(_))));
}

#[test]
fn seven_bit_encoding_cannot_carry_non_ascii_text() {
    let mut msg = test_mail();
    msg.text_body = Some("h\u{e9}llo".into());
    msg.headers.insert("Content-Transfer-Encoding".into(), "7bit".into());
    assert!(try_build_message(&msg).is_none());
}

#[test]
fn unknown_encoding_name_is_left_to_lettre() {
    let mut msg = test_mail();
    msg.text_body = Some("h\u{e9}llo".into());
    msg.headers.insert("content-transfer-encoding".into(), "7BIT".into());
    assert!(matches!(try_build_message(&msg), Some(Ok(_))));
}

#[test]
fn custom_from_naming_no_mailbox_is_refused() {
    let mut msg = test_mail();
    msg.headers.insert("From".into(), "".into());
    assert!(try_build_message(&msg).is_none());
}

#[test]
fn custom_from_with_one_mailbox_builds() {
    let mut msg = test_mail();
    msg.headers.insert("From".into(), "other@example.com".into());
    let message = build_message(&msg).unwrap();
    let raw = String::from_utf8_lossy(&message.formatted()).to_string();
    assert!(raw.contains("From: other@example.com"));
}

#[test]
fn custom_subject_replaces_assembled_one() {
    let mut msg = test_mail();
    msg.headers.insert("Subject".into(), "Override".into());
    let message = build_message(&msg).unwrap();
    let raw = String::from_utf8_lossy(&message.formatted()).to_string();
    assert!(raw.contains("Subject: Override"));
    assert!(!raw.contains("Subject: Test"));
}

#[test]
fn custom_sender_stands_in_for_empty_from() {
    let mut msg = test_mail();
    msg.headers.insert("From".into(), "".into());
    msg.headers.insert("Sender".into(), "sender@example.com".into());
    assert!(matches!(try_build_message(&msg), Some(Ok(_))));
}
