use bms_downloader::link::{create_link_from_url, GoogleDriveLink, LinkType};
use bms_downloader::resolve::{
    download_google_drive_file, download_link_by_type, extract_confirm_token_from_html,
    extract_download_url_from_html, extract_filename_from_disposition,
    extract_filename_from_html, extract_mediafire_download_url, google_drive_final_url,
    google_drive_probe_url, mediafire_target, DriveAction, DriveEvent, DriveState, Resolution,
    ResolutionError, GOOGLE_DRIVE_REDIRECT_LIMIT, ONEDRIVE_REDIRECT_LIMIT,
};

const CONFIRM_PAGE: &str = "<html><body><form action=\"https://drive.usercontent.google.com/download\"><input type=\"hidden\" name=\"id\" value=\"ID1\"><input type=\"hidden\" name=\"export\" value=\"download\"><input type=\"hidden\" name=\"confirm\" value=\"T\"><input type=\"hidden\" name=\"uuid\" value=\"U\"></form></body></html>";

#[test]
fn hidden_fields_give_the_download_url() {
    assert_eq!(
        extract_download_url_from_html(CONFIRM_PAGE),
        Some(
            "https://drive.usercontent.google.com/download?id=ID1&export=download&confirm=T&uuid=U"
                .to_string()
        )
    );
}

#[test]
fn hidden_fields_must_all_be_there() {
    let page = "<input name=\"id\" value=\"ID1\"><input name=\"export\" value=\"download\"><input name=\"confirm\" value=\"T\">";
    assert_eq!(extract_download_url_from_html(page), None);
    assert_eq!(extract_download_url_from_html(""), None);
}

#[test]
fn hidden_field_must_be_closed() {
    let page = "name=\"id\" value=\"a\" name=\"export\" value=\"b\" name=\"confirm\" value=\"c\" name=\"uuid\" value=\"open";
    assert_eq!(extract_download_url_from_html(page), None);
}

#[test]
fn hidden_fields_may_be_empty() {
    let page = "name=\"id\" value=\"\" name=\"export\" value=\"\" name=\"confirm\" value=\"\" name=\"uuid\" value=\"\"";
    assert_eq!(
        extract_download_url_from_html(page),
        Some(
            "https://drive.usercontent.google.com/download?id=&export=&confirm=&uuid=".to_string()
        )
    );
}

#[test]
fn confirm_token_ends_at_ampersand() {
    assert_eq!(
        extract_confirm_token_from_html("<a href=\"/uc?export=download&confirm=TOKEN&id=F\">"),
        "TOKEN"
    );
}

#[test]
fn confirm_token_ends_at_quote() {
    assert_eq!(extract_confirm_token_from_html("<a href=\"/uc?confirm=TOKEN\">x</a>"), "TOKEN");
}

#[test]
fn confirm_token_runs_to_the_end() {
    assert_eq!(extract_confirm_token_from_html("see confirm=TOKEN"), "TOKEN");
}

#[test]
fn confirm_token_prefers_ampersand_to_an_earlier_quote() {
    assert_eq!(extract_confirm_token_from_html("confirm=A\" b&c"), "A\" b");
}

#[test]
fn confirm_token_is_empty_without_marker() {
    assert_eq!(extract_confirm_token_from_html("<html>nothing here</html>"), "");
    assert_eq!(extract_confirm_token_from_html(""), "");
    assert_eq!(extract_confirm_token_from_html("confirm=&id=1"), "");
}

#[test]
fn filename_from_first_element_text() {
    assert_eq!(
        extract_filename_from_html("<a href=\"/open?id=1\">song.zip</a>"),
        Some("song.zip".to_string())
    );
}

#[test]
fn filename_needs_a_dot_and_no_space() {
    assert_eq!(extract_filename_from_html("<a>song</a>"), None);
    assert_eq!(extract_filename_from_html("<a>my song.zip</a>"), None);
    assert_eq!(extract_filename_from_html("<a>song.zip"), None);
    assert_eq!(extract_filename_from_html("no markup"), None);
    assert_eq!(extract_filename_from_html("<p></p><a>song.zip</a>"), None);
}

#[test]
fn disposition_quoted_name() {
    assert_eq!(
        extract_filename_from_disposition("attachment; filename=\"song pack.zip\""),
        Some("song pack.zip".to_string())
    );
    assert_eq!(
        extract_filename_from_disposition("attachment; filename=\"a.zip\"; size=3"),
        Some("a.zip".to_string())
    );
}

#[test]
fn disposition_bare_name() {
    assert_eq!(
        extract_filename_from_disposition("attachment; filename=a.zip; size=3"),
        Some("a.zip".to_string())
    );
    assert_eq!(
        extract_filename_from_disposition("attachment; filename=a.zip"),
        Some("a.zip".to_string())
    );
    assert_eq!(extract_filename_from_disposition("filename="), Some("".to_string()));
}

#[test]
fn disposition_extended_name() {
    assert_eq!(
        extract_filename_from_disposition("attachment; filename*=UTF-8''song%20pack.zip"),
        Some("song%20pack.zip".to_string())
    );
    assert_eq!(
        extract_filename_from_disposition("attachment; filename*=UTF-8''a.zip; x=y"),
        Some("a.zip".to_string())
    );
}

#[test]
fn disposition_unclosed_quote_falls_back_to_extended_name() {
    assert_eq!(
        extract_filename_from_disposition("filename=\"broken; filename*=UTF-8''ok.zip"),
        Some("ok.zip".to_string())
    );
    assert_eq!(extract_filename_from_disposition("filename=\"broken"), None);
}

#[test]
fn disposition_without_name() {
    assert_eq!(extract_filename_from_disposition("attachment"), None);
    assert_eq!(extract_filename_from_disposition(""), None);
}

#[test]
fn mediafire_marked_link() {
    let page = "<a href=\"https://other.example/\">x</a><a class=\"input\" href=\"https://download123.mediafire.com/abc/file.zip\" id=\"downloadButton\" data=\"download_link\">Download</a>";
    assert_eq!(
        extract_mediafire_download_url(page),
        Some("https://download123.mediafire.com/abc/file.zip".to_string())
    );
}

#[test]
fn mediafire_marked_link_must_be_a_web_address() {
    let page = "<a href=\"/relative\" class=\"download_link\">x</a>";
    assert_eq!(extract_mediafire_download_url(page), None);
}

#[test]
fn mediafire_rescued_link() {
    let page = "<script>var u = \"https://download99.mediafire.com/x/file.zip\";</script>";
    assert_eq!(
        extract_mediafire_download_url(page),
        Some("https://download99.mediafire.com/x/file.zip".to_string())
    );
}

#[test]
fn mediafire_rescue_looks_at_every_address() {
    let page = "<a href=\"https://www.mediafire.com/\">home</a><a href=\"https://download1.mediafire.com/f.zip\">get</a>";
    assert_eq!(
        extract_mediafire_download_url(page),
        Some("https://download1.mediafire.com/f.zip".to_string())
    );
    let page = "<a href=\"https://www.example.com/\">x</a> \"https://download99.mediafire.com/x\"";
    assert_eq!(
        extract_mediafire_download_url(page),
        Some("https://download99.mediafire.com/x".to_string())
    );
}

#[test]
fn mediafire_rescue_takes_the_first_address_that_will_do() {
    let page = "\"http://a.example/\" \"https://dl.example/download/1\" \"https://download2.mediafire.com/2\"";
    assert_eq!(
        extract_mediafire_download_url(page),
        Some("https://dl.example/download/1".to_string())
    );
}

#[test]
fn mediafire_rescue_reads_each_address_up_to_the_next_quote() {
    let page = "http without an end, then \"https://dl.example/download\"";
    assert_eq!(
        extract_mediafire_download_url(page),
        Some("https://dl.example/download".to_string())
    );
    let outer = "\"https://www.example.com/?to=http://dl.example/download\"";
    assert_eq!(
        extract_mediafire_download_url(outer),
        Some("https://www.example.com/?to=http://dl.example/download".to_string())
    );
}

#[test]
fn mediafire_rescue_finds_nothing_where_no_address_will_do() {
    let page = "<a href=\"https://www.mediafire.com/\">home</a><a href=\"https://www.example.com/download\">x</a>";
    assert_eq!(extract_mediafire_download_url(page), None);
    assert_eq!(extract_mediafire_download_url("\"https://download.example.com/no-marker"), None);
}

#[test]
fn mediafire_page_without_link() {
    assert_eq!(extract_mediafire_download_url("<html>gone</html>"), None);
    assert_eq!(extract_mediafire_download_url(""), None);
    assert_eq!(extract_mediafire_download_url("https://download.mediafire.com/x"), None);
}

#[test]
fn mediafire_target_is_the_scraped_address() {
    let page = "\"https://download99.mediafire.com/x/file.zip\"";
    let target = mediafire_target("https://www.mediafire.com/file/x", page);
    assert!(matches!(target, Ok(url) if url == "https://download99.mediafire.com/x/file.zip"));
}

#[test]
fn mediafire_target_fails_without_link() {
    let target = mediafire_target("https://www.mediafire.com/file/x", "<html></html>");
    assert!(matches!(
        target,
        Err(ResolutionError::ResolutionFailed { provider, url })
            if provider == "MediaFire" && url == "https://www.mediafire.com/file/x"
    ));
}

#[test]
fn probe_url_is_built_round_the_id() {
    assert_eq!(
        google_drive_probe_url("ID1"),
        "https://drive.google.com/uc?export=download&id=ID1"
    );
}

#[test]
fn final_url_from_hidden_fields() {
    assert_eq!(
        google_drive_final_url("ID1", CONFIRM_PAGE),
        "https://drive.usercontent.google.com/download?id=ID1&export=download&confirm=T&uuid=U"
    );
}

#[test]
fn final_url_from_confirm_token() {
    assert_eq!(
        google_drive_final_url("ID1", "<a href=\"/uc?export=download&confirm=TOK&id=ID1\">"),
        "https://drive.google.com/uc?export=download&confirm=TOK&id=ID1"
    );
}

#[test]
fn final_url_is_the_probe_url_without_confirmation() {
    assert_eq!(
        google_drive_final_url("ID1", "PK\u{3}\u{4} binary"),
        "https://drive.google.com/uc?export=download&id=ID1"
    );
}

#[test]
fn drive_download_runs_through_its_steps() {
    let (state, action) =
        download_google_drive_file("ID1", DriveState::Start, DriveEvent::Begin);
    assert!(matches!(state, DriveState::Probing));
    assert!(matches!(
        action,
        DriveAction::Probe { url } if url == "https://drive.google.com/uc?export=download&id=ID1"
    ));

    let (state, action) = download_google_drive_file(
        "ID1",
        state,
        DriveEvent::ProbeBody { body: CONFIRM_PAGE.to_string() },
    );
    assert!(matches!(&state, DriveState::Fetching { page_name: None }));
    assert!(matches!(
        action,
        DriveAction::Fetch { url }
            if url == "https://drive.usercontent.google.com/download?id=ID1&export=download&confirm=T&uuid=U"
    ));

    let (state, action) = download_google_drive_file(
        "ID1",
        state,
        DriveEvent::ResponseHeader {
            disposition: Some("attachment; filename=\"pack.zip\"".to_string()),
        },
    );
    assert!(matches!(state, DriveState::Finished));
    assert!(matches!(action, DriveAction::Save { filename: Some(name) } if name == "pack.zip"));
}

#[test]
fn drive_download_falls_back_to_the_page_name() {
    let (state, _) = download_google_drive_file(
        "ID1",
        DriveState::Probing,
        DriveEvent::ProbeBody { body: "<a href=\"/open\">pack.rar</a>".to_string() },
    );
    assert!(matches!(&state, DriveState::Fetching { page_name: Some(name) } if name == "pack.rar"));
    let (_, action) = download_google_drive_file(
        "ID1",
        state,
        DriveEvent::ResponseHeader { disposition: Some("inline".to_string()) },
    );
    assert!(matches!(action, DriveAction::Save { filename: Some(name) } if name == "pack.rar"));
}

#[test]
fn drive_download_keeps_the_callers_name() {
    let (state, action) = download_google_drive_file(
        "ID1",
        DriveState::Fetching { page_name: None },
        DriveEvent::ResponseHeader { disposition: None },
    );
    assert!(matches!(state, DriveState::Finished));
    assert!(matches!(action, DriveAction::Save { filename: None }));
}

#[test]
fn drive_download_gives_up_on_a_stray_event() {
    let (state, action) = download_google_drive_file(
        "ID1",
        DriveState::Start,
        DriveEvent::ResponseHeader { disposition: None },
    );
    assert!(matches!(state, DriveState::Finished));
    assert!(matches!(action, DriveAction::Abort));
    let (state, action) =
        download_google_drive_file("ID1", DriveState::Finished, DriveEvent::Begin);
    assert!(matches!(state, DriveState::Finished));
    assert!(matches!(action, DriveAction::Abort));
}

#[test]
fn redirect_limits() {
    assert_eq!(GOOGLE_DRIVE_REDIRECT_LIMIT, 10);
    assert_eq!(ONEDRIVE_REDIRECT_LIMIT, 5);
}

#[test]
fn direct_link_is_fetched_as_it_stands() {
    let link = create_link_from_url("https://example.com/a.zip");
    assert!(matches!(
        download_link_by_type(&link),
        Ok(Resolution::Fetch { url }) if url == "https://example.com/a.zip"
    ));
}

#[test]
fn google_drive_link_runs_the_drive_download() {
    let link = create_link_from_url("https://drive.google.com/file/d/ID1/view");
    assert!(matches!(
        download_link_by_type(&link),
        Ok(Resolution::GoogleDrive { file_id }) if file_id == "ID1"
    ));
}

#[test]
fn google_drive_address_gives_its_id() {
    let link = LinkType::GoogleDrive(GoogleDriveLink {
        share_id: "https://drive.google.com/uc?export=download&id=LATE".to_string(),
    });
    assert!(matches!(
        download_link_by_type(&link),
        Ok(Resolution::GoogleDrive { file_id }) if file_id == "LATE"
    ));
}

#[test]
fn google_drive_address_without_id_fails() {
    let link = create_link_from_url("https://drive.google.com/drive/folders");
    assert!(matches!(
        download_link_by_type(&link),
        Err(ResolutionError::ResolutionFailed { provider, url })
            if provider == "GoogleDrive" && url == "https://drive.google.com/drive/folders"
    ));
}

#[test]
fn dropbox_link_is_fetched_from_its_download_url() {
    let link = create_link_from_url("https://www.dropbox.com/sh?dl=0");
    assert!(matches!(
        download_link_by_type(&link),
        Ok(Resolution::Fetch { url }) if url == "https://www.dropbox.com/sh?dl=1"
    ));
}

#[test]
fn onedrive_link_follows_redirects() {
    let link = create_link_from_url("https://1drv.ms/u/s!abc");
    assert!(matches!(
        download_link_by_type(&link),
        Ok(Resolution::FollowRedirects { url }) if url == "https://1drv.ms/u/s!abc"
    ));
}

#[test]
fn mediafire_link_scrapes_its_page() {
    let link = create_link_from_url("https://www.mediafire.com/file/x");
    assert!(matches!(
        download_link_by_type(&link),
        Ok(Resolution::ScrapePage { url }) if url == "https://www.mediafire.com/file/x"
    ));
}

#[test]
fn unsupported_link_is_refused() {
    let link = create_link_from_url("https://mega.nz/file/abc#key");
    assert!(matches!(
        download_link_by_type(&link),
        Err(ResolutionError::ClassificationAmbiguous { provider, url })
            if provider == "Mega" && url == "https://mega.nz/file/abc#key"
    ));
}

#[test]
fn text_is_refused() {
    let link = create_link_from_url("ask the author");
    assert!(matches!(
        download_link_by_type(&link),
        Err(ResolutionError::NoDownloadableLink { text }) if text == "ask the author"
    ));
}

#[test]
fn google_drive_entry_resolves_end_to_end() {
    let link = create_link_from_url("https://drive.google.com/file/d/ID1/view");
    let fetch_url = link.get_direct_url().unwrap_or_default();
    assert!(fetch_url.contains("id=ID1"));
    let file_id = match download_link_by_type(&link) {
        Ok(Resolution::GoogleDrive { file_id }) => file_id,
        other => panic!("unexpected resolution: {:?}", other),
    };
    let (state, _) = download_google_drive_file(&file_id, DriveState::Start, DriveEvent::Begin);
    let (_, action) = download_google_drive_file(
        &file_id,
        state,
        DriveEvent::ProbeBody { body: CONFIRM_PAGE.to_string() },
    );
    match action {
        DriveAction::Fetch { url } => assert_eq!(
            url,
            "https://drive.usercontent.google.com/download?id=ID1&export=download&confirm=T&uuid=U"
        ),
        other => panic!("unexpected action: {:?}", other),
    }
}
