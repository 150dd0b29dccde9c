use fantastic_giggle::account::{AccessToken, Credential};
use fantastic_giggle::api::{
    after_exchange, callback_reply, credential_from_cookies, identity_reply, login_reply,
    AfterExchange, Reply, Verification,
};

#[test]
fn a_credential_needs_both_cookies() {
    assert_eq!(
        credential_from_cookies(Some("k".to_string()), Some("s".to_string())),
        Some(Credential { access_key: "k".to_string(), access_secret: "s".to_string() })
    );
    assert_eq!(credential_from_cookies(Some("k".to_string()), None), None);
    assert_eq!(credential_from_cookies(None, Some("s".to_string())), None);
    assert_eq!(credential_from_cookies(None, None), None);
}

#[test]
fn login_redirects_to_the_authorisation_page() {
    let reply = login_reply(Some("request-key".to_string()));
    assert_eq!(
        reply,
        Reply::Redirect(
            "https://api.twitter.com/oauth/authorize?oauth_token=request-key".to_string()
        )
    );
    assert_eq!(reply.status(), 302);
    assert_eq!(login_reply(None), Reply::ServerError);
    assert_eq!(login_reply(None).status(), 500);
}

#[test]
fn a_granted_credential_is_saved_under_the_account_id() {
    let granted =
        Credential { access_key: "k".to_string(), access_secret: "s".to_string() };
    assert_eq!(
        after_exchange(Some((77, granted))),
        AfterExchange::Save(AccessToken {
            id: 77,
            access_key: "k".to_string(),
            access_secret: "s".to_string(),
        })
    );
    assert_eq!(after_exchange(None), AfterExchange::Reply(Reply::ServerError));
}

#[test]
fn the_callback_redirects_to_the_front_page_once_saved() {
    assert_eq!(callback_reply(true), Reply::Redirect("/".to_string()));
    assert_eq!(callback_reply(true).status(), 302);
    assert_eq!(callback_reply(false), Reply::ServerError);
}

#[test]
fn the_identity_check_turns_away_missing_and_refused_credentials() {
    assert_eq!(identity_reply(None), Reply::BadRequest);
    assert_eq!(identity_reply(None).status(), 400);
    assert_eq!(identity_reply(Some(Verification::Refused)), Reply::BadRequest);
    assert_eq!(identity_reply(Some(Verification::Failed)), Reply::ServerError);
    assert_eq!(identity_reply(Some(Verification::Failed)).status(), 500);
    let reply =
        identity_reply(Some(Verification::Valid { screen_name: "ann".to_string(), id: 5 }));
    assert_eq!(reply, Reply::Identity { screen_name: "ann".to_string(), id: 5 });
    assert_eq!(reply.status(), 200);
}
