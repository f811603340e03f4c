use chost_md::clock::{read_at, stamp_of, Clock, Instant, Stamp};
use chost_md::error::{ClockFailure, RenderError, TimestampField};
use chost_md::model::{
    Ask, AskSettings, AstMap, Block, Chost, Markdown, PostingProject, Privacy,
};
use chrono::{DateTime, Local, Offset, Utc};

fn local(text: &str) -> DateTime<Local> {
    text.parse::<DateTime<Utc>>().unwrap().with_timezone(&Local)
}

fn machine(text: &str) -> String {
    local(text).to_rfc3339()
}

fn display(text: &str) -> String {
    local(text).format("%a, %b %d, %Y at %H:%M").to_string()
}

fn time(text: &str) -> String {
    format!("<time datetime=\"{}\">{}</time>", machine(text), display(text))
}

fn post(post_id: u64, handle: &str, published_at: &str) -> Chost {
    Chost {
        post_id,
        headline: String::new(),
        published_at: published_at.to_string(),
        filename: String::new(),
        transparent_share_of_post_id: None,
        share_of_post_id: None,
        state: 1,
        num_comments: 0,
        num_shared_comments: 0,
        cws: Vec::new(),
        tags: Vec::new(),
        blocks: Vec::new(),
        plain_text_body: String::new(),
        posting_project: PostingProject {
            handle: handle.to_string(),
            display_name: handle.to_uppercase(),
            dek: String::new(),
            description: String::new(),
            avatar_url: String::new(),
            avatar_preview_url: String::new(),
            header_url: None,
            header_preview_url: None,
            project_id: 1,
            privacy: Privacy::LoggedIn,
            pronouns: String::new(),
            url: String::new(),
            flags: Vec::new(),
            avatar_shape: String::new(),
            logged_out_post_visibility: String::new(),
            ask_settings: AskSettings {
                enabled: false,
                allow_anon: false,
                require_logged_in_anon: false,
            },
            frequently_used_tags: Vec::new(),
            contact_card: Vec::new(),
        },
        share_tree: Vec::new(),
        related_projects: Vec::new(),
        single_post_page_url: format!("https://cohost.org/{handle}/post/{post_id}"),
        effective_adult_content: false,
        is_editor: false,
        contributor_block_incoming_or_outgoing: false,
        has_any_contributor_muted: false,
        post_edit_url: String::new(),
        is_liked: false,
        can_share: true,
        can_publish: true,
        has_cohost_plus: false,
        pinned: false,
        comments_locked: false,
        shares_locked: false,
        limited_visibility_reason: String::new(),
        ast_map: AstMap { spans: Vec::new(), read_more_index: None },
        response_to_ask_id: None,
    }
}

fn anonymous_ask(sent_at: &str) -> Block {
    Block::Ask {
        ask: Ask {
            ask_id: String::new(),
            anon: true,
            logged_in: false,
            asking_project: None,
            content: "q".to_string(),
            sent_at: sent_at.to_string(),
        },
    }
}

#[test]
fn new_clock_knows_nothing() {
    let clock = Clock::new();
    assert_eq!(clock.get("2024-09-23T02:25:43.380Z"), None);
    assert_eq!(clock.get(""), None);
}

#[test]
fn clock_gives_back_what_it_was_told() {
    let mut clock = Clock::new();
    let a = Stamp { machine: "ma".to_string(), display: "da".to_string() };
    let b = Stamp { machine: "mb".to_string(), display: "db".to_string() };
    clock.set("a", a.clone());
    clock.set("b", b.clone());
    assert_eq!(clock.get("a"), Some(&a));
    assert_eq!(clock.get("b"), Some(&b));
    assert_eq!(clock.get("c"), None);
    assert_eq!(clock.get("A"), None);
}

#[test]
fn clock_keeps_the_later_of_two_readings() {
    let mut clock = Clock::new();
    let a = Stamp { machine: "ma".to_string(), display: "da".to_string() };
    let b = Stamp { machine: "mb".to_string(), display: "db".to_string() };
    clock.set("a", a);
    clock.set("x", b.clone());
    clock.set("a", b.clone());
    assert_eq!(clock.get("a"), Some(&b));
    assert_eq!(clock.get("x"), Some(&b));
}

#[test]
fn clock_reads_a_timestamp_in_local_time() {
    let text = "2025-01-01T13:45:10.250Z";
    let mut clock = Clock::new();
    assert_eq!(clock.learn(text), Ok(()));
    let stamp = clock.get(text).unwrap();
    assert_eq!(stamp.machine, machine(text));
    assert_eq!(stamp.display, display(text));
    assert_ne!(stamp.machine, text);
    assert_ne!(stamp.display, text);
    assert_ne!(stamp.machine, stamp.display);
}

#[test]
fn clock_reads_the_instant_whatever_offset_the_text_has() {
    let mut clock = Clock::new();
    assert_eq!(clock.learn("2025-01-01T13:45:00Z"), Ok(()));
    assert_eq!(clock.learn("2025-01-01T22:45:00+09:00"), Ok(()));
    assert_eq!(clock.learn("2025-01-01 08:45:00-05:00"), Ok(()));
    let utc = clock.get("2025-01-01T13:45:00Z").unwrap();
    assert_eq!(clock.get("2025-01-01T22:45:00+09:00"), Some(utc));
    assert_eq!(clock.get("2025-01-01 08:45:00-05:00"), Some(utc));
}

#[test]
fn display_form_follows_the_pattern() {
    let text = "2025-01-01T13:45:00Z";
    let mut clock = Clock::new();
    assert_eq!(clock.learn(text), Ok(()));
    let stamp = clock.get(text).unwrap();
    let shown = &stamp.display;
    assert_eq!(shown.len(), "Wed, Jan 01, 2025 at 13:45".len());
    assert_eq!(&shown[3..5], ", ");
    assert_eq!(&shown[8..9], " ");
    assert_eq!(&shown[11..13], ", ");
    assert_eq!(&shown[17..21], " at ");
    assert_eq!(&shown[23..24], ":");
    let hours = local(text).format("%H:%M").to_string();
    assert!(shown.ends_with(&hours));
    assert!(stamp.machine.contains(&format!("T{hours}:00")));
    let offset = local(text).format("%:z").to_string();
    assert!(stamp.machine.ends_with(&offset));
    if offset == "+00:00" {
        assert_eq!(shown, "Wed, Jan 01, 2025 at 13:45");
        assert_eq!(stamp.machine, "2025-01-01T13:45:00+00:00");
    }
}

#[test]
fn clock_does_not_read_what_is_no_timestamp() {
    let mut clock = Clock::new();
    for text in ["", "yesterday", "2025-01-01", "2025-01-01T13:45:00", "2025-13-01T13:45:00Z", "1735739100"] {
        assert_eq!(clock.learn(text), Err(ClockFailure::Unresolved));
        assert_eq!(clock.get(text), None);
    }
}

#[test]
fn clock_leaves_what_it_knows_as_it_is() {
    let mut clock = Clock::new();
    let told = Stamp { machine: "m".to_string(), display: "d".to_string() };
    clock.set("2025-01-01T13:45:00Z", told.clone());
    clock.set("no timestamp", told.clone());
    assert_eq!(clock.learn("2025-01-01T13:45:00Z"), Ok(()));
    assert_eq!(clock.learn("no timestamp"), Ok(()));
    assert_eq!(clock.get("2025-01-01T13:45:00Z"), Some(&told));
    assert_eq!(clock.get("no timestamp"), Some(&told));
    assert_eq!(clock.learn("2025-06-01T13:45:00Z"), Ok(()));
    assert_eq!(clock.get("2025-01-01T13:45:00Z"), Some(&told));
}

#[test]
fn stamp_needs_both_forms() {
    assert_eq!(
        stamp_of(Some("m".to_string()), Some("d".to_string())),
        Ok(Stamp { machine: "m".to_string(), display: "d".to_string() })
    );
    assert_eq!(stamp_of(Some("m".to_string()), None), Err(ClockFailure::Unwritable));
    assert_eq!(stamp_of(None, Some("d".to_string())), Err(ClockFailure::Unwritable));
    assert_eq!(stamp_of(None, None), Err(ClockFailure::Unwritable));
}

fn stamp(machine: &str, display: &str) -> Result<Stamp, ClockFailure> {
    Ok(Stamp { machine: machine.to_string(), display: display.to_string() })
}

#[test]
fn instant_reads_in_utc() {
    let new_year_afternoon = Instant { seconds: 1735739100, nanos: 0 };
    assert_eq!(
        read_at(new_year_afternoon, 0),
        stamp("2025-01-01T13:45:00+00:00", "Wed, Jan 01, 2025 at 13:45")
    );
    assert_eq!(
        read_at(Instant { seconds: 0, nanos: 0 }, 0),
        stamp("1970-01-01T00:00:00+00:00", "Thu, Jan 01, 1970 at 00:00")
    );
}

#[test]
fn instant_reads_at_an_offset() {
    let new_year_afternoon = Instant { seconds: 1735739100, nanos: 0 };
    assert_eq!(
        read_at(new_year_afternoon, 7200),
        stamp("2025-01-01T15:45:00+02:00", "Wed, Jan 01, 2025 at 15:45")
    );
    assert_eq!(
        read_at(new_year_afternoon, -12600),
        stamp("2025-01-01T10:15:00-03:30", "Wed, Jan 01, 2025 at 10:15")
    );
    assert_eq!(
        read_at(Instant { seconds: 1735700400, nanos: 0 }, -18000),
        stamp("2024-12-31T22:00:00-05:00", "Tue, Dec 31, 2024 at 22:00")
    );
}

#[test]
fn instant_keeps_the_fraction_of_its_second_for_the_machine() {
    let at = Instant { seconds: 1727058343, nanos: 380_000_000 };
    assert_eq!(
        read_at(at, 7200),
        stamp("2024-09-23T04:25:43.380+02:00", "Mon, Sep 23, 2024 at 04:25")
    );
    assert_eq!(
        read_at(Instant { seconds: 1727058343, nanos: 380_001_000 }, 0),
        stamp("2024-09-23T02:25:43.380001+00:00", "Mon, Sep 23, 2024 at 02:25")
    );
    assert_eq!(
        read_at(Instant { seconds: 1727058343, nanos: 1 }, 0),
        stamp("2024-09-23T02:25:43.000000001+00:00", "Mon, Sep 23, 2024 at 02:25")
    );
}

#[test]
fn display_form_has_a_clock_of_24_hours() {
    assert_eq!(
        read_at(Instant { seconds: 1735775940, nanos: 0 }, 0),
        stamp("2025-01-01T23:59:00+00:00", "Wed, Jan 01, 2025 at 23:59")
    );
    assert_eq!(
        read_at(Instant { seconds: 1751328300, nanos: 0 }, 0),
        stamp("2025-07-01T00:05:00+00:00", "Tue, Jul 01, 2025 at 00:05")
    );
}

#[test]
fn instant_cannot_be_written_at_an_offset_of_a_day() {
    let at = Instant { seconds: 1735739100, nanos: 0 };
    assert_eq!(read_at(at, 86400), Err(ClockFailure::Unwritable));
    assert_eq!(read_at(at, -86400), Err(ClockFailure::Unwritable));
    assert!(read_at(at, 86399).is_ok());
    assert!(read_at(at, -86399).is_ok());
}

#[test]
fn instant_beyond_all_dates_cannot_be_written() {
    assert_eq!(read_at(Instant { seconds: i64::MAX, nanos: 0 }, 0), Err(ClockFailure::Unwritable));
    assert_eq!(read_at(Instant { seconds: i64::MIN, nanos: 0 }, 0), Err(ClockFailure::Unwritable));
    assert_eq!(
        read_at(Instant { seconds: 0, nanos: 2_000_000_000 }, 0),
        Err(ClockFailure::Unwritable)
    );
}

#[test]
fn clock_reads_the_instant_that_the_text_names() {
    let text = "2025-01-01T15:45:00.5+02:00";
    let offset = local(text).offset().fix().local_minus_utc();
    let mut clock = Clock::new();
    assert_eq!(clock.learn(text), Ok(()));
    assert_eq!(
        clock.get(text).cloned().ok_or(ClockFailure::Unresolved),
        read_at(Instant { seconds: 1735739100, nanos: 500_000_000 }, offset)
    );
}

#[test]
fn error_of_a_post_for_each_failure_of_the_clock() {
    assert_eq!(
        RenderError::of_clock(ClockFailure::Unresolved, 4, TimestampField::SentAt),
        RenderError::UnresolvedTimestamp { post_id: 4, field: TimestampField::SentAt }
    );
    assert_eq!(
        RenderError::of_clock(ClockFailure::Unwritable, 5, TimestampField::PublishedAt),
        RenderError::WriteFailure { post_id: 5, field: TimestampField::PublishedAt }
    );
}

#[test]
fn error_messages() {
    let at = TimestampField::PublishedAt;
    let sent = TimestampField::SentAt;
    assert_eq!(
        RenderError::UnresolvedTimestamp { post_id: 1, field: at }.message(),
        "the time of publishing is no timestamp"
    );
    assert_eq!(
        RenderError::UnresolvedTimestamp { post_id: 1, field: sent }.message(),
        "the time at which an ask was sent is no timestamp"
    );
    assert_eq!(
        RenderError::WriteFailure { post_id: 1, field: at }.message(),
        "the time of publishing could not be written"
    );
    assert_eq!(
        RenderError::WriteFailure { post_id: 1, field: sent }.message(),
        "the time at which an ask was sent could not be written"
    );
}

#[test]
fn learning_a_post_reads_its_timestamps() {
    let mut p = post(1, "a", "2025-01-01T13:45:00Z");
    p.blocks = vec![
        anonymous_ask("2024-12-31T10:00:00Z"),
        Block::AttachmentRow { attachments: vec![anonymous_ask("2024-12-30T10:00:00Z")] },
    ];
    let mut clock = Clock::new();
    assert_eq!(p.learn(&mut clock), Ok(()));
    assert!(clock.get("2025-01-01T13:45:00Z").is_some());
    assert!(clock.get("2024-12-31T10:00:00Z").is_some());
    assert!(clock.get("2024-12-30T10:00:00Z").is_some());
    let mut out = String::new();
    assert_eq!(p.render(&clock, &mut out), Ok(()));
}

#[test]
fn learning_a_post_stops_at_the_first_failure() {
    let mut p = post(1, "a", "2025-01-01T13:45:00Z");
    p.blocks = vec![anonymous_ask("soon"), anonymous_ask("2024-12-30T10:00:00Z")];
    let mut clock = Clock::new();
    assert_eq!(
        p.learn(&mut clock),
        Err(RenderError::UnresolvedTimestamp { post_id: 1, field: TimestampField::SentAt })
    );
    assert!(clock.get("2025-01-01T13:45:00Z").is_some());
    assert!(clock.get("2024-12-30T10:00:00Z").is_none());
    p.published_at = "then".to_string();
    assert_eq!(
        p.learn(&mut Clock::new()),
        Err(RenderError::UnresolvedTimestamp { post_id: 1, field: TimestampField::PublishedAt })
    );
}

#[test]
fn learning_leaves_a_clock_that_knows_all_as_it_is() {
    let told = Stamp { machine: "m".to_string(), display: "d".to_string() };
    let mut shared = post(1, "b", "once");
    shared.blocks = vec![
        anonymous_ask("upon"),
        Block::AttachmentRow { attachments: vec![anonymous_ask("a time")] },
    ];
    let mut p = post(2, "a", "2025-01-01T13:45:00Z");
    p.blocks = vec![anonymous_ask("long ago")];
    p.share_tree = vec![shared];
    let mut clock = Clock::new();
    for text in ["once", "upon", "a time", "2025-01-01T13:45:00Z", "long ago"] {
        clock.set(text, told.clone());
    }
    assert_eq!(p.learn_document(&mut clock), Ok(()));
    assert_eq!(p.share_tree[0].learn(&mut clock), Ok(()));
    assert_eq!(p.share_tree[0].blocks[1].learn(&mut clock), Ok(()));
    for text in ["once", "upon", "a time", "2025-01-01T13:45:00Z", "long ago"] {
        assert_eq!(clock.get(text), Some(&told));
    }
    assert!(p.generate_markdown_with(&clock).is_ok());
}

#[test]
fn failure_names_the_post_it_came_from() {
    let mut shared = post(1, "b", "2024-01-01T13:45:00Z");
    shared.blocks = vec![anonymous_ask("never")];
    let mut p = post(2, "a", "2025-01-01T13:45:00Z");
    p.share_tree = vec![shared];
    assert_eq!(p.generate_markdown().map_err(|error| error.post_id()), Err(1));
    p.share_tree[0].transparent_share_of_post_id = Some(0);
    assert!(p.generate_markdown().is_ok());
    p.published_at = "never".to_string();
    p.share_tree[0].transparent_share_of_post_id = None;
    assert_eq!(
        p.generate_markdown(),
        Err(RenderError::UnresolvedTimestamp { post_id: 2, field: TimestampField::PublishedAt })
    );
}

#[test]
fn learning_a_document_skips_transparent_shares() {
    let mut p = post(3, "a", "2025-01-01T13:45:00Z");
    let shown = post(1, "b", "2024-01-01T13:45:00Z");
    let mut silent = post(2, "c", "2023-01-01T13:45:00Z");
    silent.transparent_share_of_post_id = Some(1);
    p.share_tree = vec![shown, silent];
    let mut clock = Clock::new();
    assert_eq!(p.learn_document(&mut clock), Ok(()));
    assert!(clock.get("2025-01-01T13:45:00Z").is_some());
    assert!(clock.get("2024-01-01T13:45:00Z").is_some());
    assert!(clock.get("2023-01-01T13:45:00Z").is_none());
}

#[test]
fn document_in_local_time() {
    let published = "2024-09-23T02:25:43.380Z";
    let shared_at = "2024-09-23T01:23:34.628Z";
    let sent = "2024-09-20T10:00:00Z";
    let mut origin = post(1, "jkap", shared_at);
    origin.blocks = vec![anonymous_ask(sent)];
    let mut p = post(2, "nex3", published);
    p.share_of_post_id = Some(1);
    p.share_tree = vec![origin];
    p.blocks = vec![Block::Markdown { markdown: Markdown { content: "hello".to_string() } }];
    p.tags = vec!["ask".to_string()];
    let text = p.generate_markdown().unwrap();
    assert_eq!(
        text,
        format!(
            "---\ncohost/date: {}\ncohost/users:\n  - nex3\n  - Anonymous User\n  - jkap\ncohost/tags:\n  - ask\ncohost/original-post: https://cohost.org/nex3/post/2\ncohost/archived-post: https://web.archive.org/web/*/https://cohost.org/nex3/post/2\n---\n>[!cohost-share] NEX3\n>@nex3 {} :LiRefreshCw: **JKAP** @jkap\n\n>[!cohost-post] JKAP\n>@jkap {}\n\n>[!cohost-ask] **Anonymous User** asked: {}\n>q\n\n\n\n>[!cohost-post] NEX3\n>@nex3 {}\n\nhello\n\n#ask\n\n",
            machine(published),
            time(published),
            time(shared_at),
            time(sent),
            time(published)
        )
    );
    let mut clock = Clock::new();
    assert_eq!(p.learn_document(&mut clock), Ok(()));
    assert_eq!(p.generate_markdown_with(&clock), Ok(text));
}

#[test]
fn document_fails_on_a_text_that_is_no_timestamp() {
    let mut origin = post(1, "jkap", "2024-09-23T01:23:34.628Z");
    let mut p = post(2, "nex3", "2024-09-23T02:25:43.380Z");
    p.blocks = vec![anonymous_ask("2024-09-20")];
    assert_eq!(
        p.generate_markdown(),
        Err(RenderError::UnresolvedTimestamp { post_id: 2, field: TimestampField::SentAt })
    );
    origin.blocks = vec![anonymous_ask("tomorrow")];
    p.share_tree = vec![origin];
    assert_eq!(
        p.generate_markdown(),
        Err(RenderError::UnresolvedTimestamp { post_id: 1, field: TimestampField::SentAt })
    );
    p.share_tree[0].published_at = String::new();
    assert_eq!(
        p.generate_markdown(),
        Err(RenderError::UnresolvedTimestamp { post_id: 1, field: TimestampField::PublishedAt })
    );
    p.published_at = "23.09.2024".to_string();
    assert_eq!(
        p.generate_markdown(),
        Err(RenderError::UnresolvedTimestamp { post_id: 2, field: TimestampField::PublishedAt })
    );
}
