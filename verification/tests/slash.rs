//! Slash commands: what a composer submission parses into.

use thornychat_ui::slash::{commands, parse, Action, CommandCategory, Parsed};

fn msg(body: &str) -> Parsed {
    Parsed::Message { body: body.to_string(), emote: false, markdown: true }
}

#[test]
fn plain_text_passes_through() {
    assert_eq!(parse("hello world"), msg("hello world"));
}

#[test]
fn me_is_an_emote() {
    assert_eq!(
        parse("/me waves"),
        Parsed::Message { body: "waves".into(), emote: true, markdown: true }
    );
}

#[test]
fn bare_me_is_a_usage_error() {
    assert!(matches!(parse("/me"), Parsed::Error(_)));
}

#[test]
fn method_is_not_a_command() {
    // A word that merely starts with /me still sends as text.
    assert_eq!(parse("/method foo"), msg("/method foo"));
}

#[test]
fn plain_skips_markdown() {
    assert_eq!(
        parse("/plain **bold**"),
        Parsed::Message { body: "**bold**".into(), emote: false, markdown: false }
    );
}

#[test]
fn shrug_with_and_without_text() {
    assert_eq!(parse("/shrug"), msg("¯\\_(ツ)_/¯"));
    assert_eq!(parse("/shrug hi"), msg("¯\\_(ツ)_/¯ hi"));
}

#[test]
fn double_slash_escapes() {
    assert_eq!(parse("//me literally"), msg("/me literally"));
}

#[test]
fn room_and_people_actions() {
    assert_eq!(parse("/join #a:b.com"), Parsed::Action(Action::Join("#a:b.com".into())));
    assert_eq!(parse("/knock #a:b.com"), Parsed::Action(Action::Knock("#a:b.com".into())));
    assert_eq!(parse("/leave"), Parsed::Action(Action::Leave));
    assert_eq!(parse("/invite @u:b.com"), Parsed::Action(Action::Invite("@u:b.com".into())));
    assert_eq!(parse("/dm @u:b.com"), Parsed::Action(Action::Dm("@u:b.com".into())));
}

#[test]
fn kick_splits_user_and_reason() {
    assert_eq!(
        parse("/kick @u:b.com being rude"),
        Parsed::Action(Action::Kick { user: "@u:b.com".into(), reason: Some("being rude".into()) })
    );
    assert_eq!(
        parse("/ban @u:b.com"),
        Parsed::Action(Action::Ban { user: "@u:b.com".into(), reason: None })
    );
}

#[test]
fn bad_arguments_are_usage_errors() {
    assert!(matches!(parse("/kick"), Parsed::Error(_)));
    assert!(matches!(parse("/kick notauser"), Parsed::Error(_)));
    assert!(matches!(parse("/join notaroom"), Parsed::Error(_)));
    assert!(matches!(parse("/knock notaroom"), Parsed::Error(_)));
}

#[test]
fn unknown_command_sends_as_text() {
    assert_eq!(parse("/wobble on"), msg("/wobble on"));
}

#[test]
fn every_command_in_the_catalog_actually_parses() {
    // A name of the catalog that the parser does not know would come back
    // verbatim, as a message. A command that it knows never produces that
    // exact echo: it errors, acts, or sends a transformed body.
    for spec in commands() {
        let echoed_unknown = msg(&format!("/{}", spec.name));
        assert_ne!(
            parse(&format!("/{}", spec.name)),
            echoed_unknown,
            "\"/{}\" is in the catalog but parse() doesn't recognise it",
            spec.name
        );
    }
}

#[test]
fn aliases_parse_like_their_command() {
    for spec in commands() {
        for alias in &spec.aliases {
            assert_eq!(
                parse(&format!("/{}", alias)),
                parse(&format!("/{}", spec.name)),
                "/{} is an alias of /{}",
                alias,
                spec.name
            );
        }
    }
}

#[test]
fn a_usage_error_quotes_the_catalog() {
    for spec in commands() {
        if let Some(usage) = spec.usage {
            assert_eq!(parse(&format!("/{}", spec.name)), Parsed::Error(usage.to_string()));
        } else {
            assert!(!matches!(parse(&format!("/{}", spec.name)), Parsed::Error(_)));
        }
    }
}

#[test]
fn the_catalog_is_grouped() {
    let categories: Vec<CommandCategory> = commands().iter().map(|c| c.category).collect();
    assert_eq!(categories[0], CommandCategory::Text);
    assert!(categories.contains(&CommandCategory::Moderation));
}

#[test]
fn topic_nick_and_room_name_keep_their_whole_argument() {
    assert_eq!(parse("/topic  two words "), Parsed::Action(Action::Topic("two words".into())));
    assert_eq!(parse("/nick Ann Lee"), Parsed::Action(Action::Nick("Ann Lee".into())));
    assert_eq!(parse("/unban @u:b.com"), Parsed::Action(Action::Unban("@u:b.com".into())));
}

#[test]
fn names_are_matched_without_case() {
    assert_eq!(parse("/LEAVE"), Parsed::Action(Action::Leave));
}
