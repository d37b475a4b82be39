use docs_rs::html::{
    after_end, after_piece, counts_as_out_of_memory, page_rules, rewrite_rustdoc_html,
    rewriting_error, Change, PageInput, PageMarkup, PageRewriter, RewriteError, Rewriting,
    StreamAction, StreamEvent,
};

fn markup() -> PageMarkup {
    PageMarkup {
        head_html: "<link href=\"/-/static/style.css\">".into(),
        vendored_html: "<link rel=\"stylesheet\" href=\"/-/static/vendored.css?0\">".into(),
        body_html: "<noscript>body</noscript>".into(),
        topbar_html: "<nav>topbar</nav>".into(),
    }
}

fn rewrite(html: &str) -> String {
    let pieces = vec![html.as_bytes().to_vec()];
    let (out, result) = rewrite_rustdoc_html(pieces, markup(), 1024 * 1024);
    result.unwrap();
    String::from_utf8(out).unwrap()
}

#[test]
fn rewriting_only_injects_css_once() {
    // A somewhat representative rustdoc html file from 2016
    let output = rewrite(
        r#"
        <html>
            <head>
                <meta charset="utf-8">
                <link rel="stylesheet" type="text/css" href="../../../rustdoc-20160728-1.12.0-nightly-54c0dcfd6.css">
                <link rel="stylesheet" type="text/css" href="../../../main-20160728-1.12.0-nightly-54c0dcfd6.css">
            </head>
        </html>
        "#,
    );
    assert_eq!(output.matches(r#"href="/-/static/vendored.css"#).count(), 1);

    // A somewhat representative rustdoc html file from late 2022
    let output = rewrite(
        r#"
        <html>
            <head>
                <meta charset="utf-8">
                <link rel="preload" as="font" type="font/woff2" crossorigin="" href="/-/rustdoc.static/SourceSerif4-Regular-1f7d512b176f0f72.ttf.woff2">
                <link rel="stylesheet" href="/-/rustdoc.static/normalize-76eba96aa4d2e634.css">
                <link rel="stylesheet" href="/-/rustdoc.static/rustdoc-eabf764633b9d7be.css" id="mainThemeStyle">
                <link rel="stylesheet" disabled="" href="/-/rustdoc.static/dark-e2f4109f2e82e3af.css">
                <script src="/-/rustdoc.static/storage-d43fa987303ecbbb.js"></script>
                <noscript><link rel="stylesheet" href="/-/rustdoc.static/noscript-13285aec31fa243e.css"></noscript>
            </head>
        </html>
        "#,
    );
    assert_eq!(output.matches(r#"href="/-/static/vendored.css"#).count(), 1);
}

#[test]
fn the_body_becomes_a_part_of_the_page() {
    let output = rewrite(r#"<head></head><body class="rustdoc mod"><p>docs</p></body>"#);
    assert_eq!(
        output,
        concat(&[
            "<head><link href=\"/-/static/style.css\"></head>",
            "<body class=\"rustdoc-page\"><nav>topbar</nav>",
            "<div class=\"rustdoc mod container-rustdoc\" id=\"rustdoc_body_wrapper\" tabindex=\"-1\">",
            "<noscript>body</noscript><p>docs</p></div></body>",
        ])
    );
    let output = rewrite("<body>docs</body>");
    assert_eq!(
        output,
        concat(&[
            "<body class=\"rustdoc-page\"><nav>topbar</nav>",
            "<div class=\"container-rustdoc\" id=\"rustdoc_body_wrapper\" tabindex=\"-1\">",
            "<noscript>body</noscript>docs</div></body>",
        ])
    );
}

fn concat(parts: &[&str]) -> String {
    parts.concat()
}

#[test]
fn the_rules_of_a_page() {
    let rules = page_rules(markup());
    let selectors: Vec<&str> = rules.iter().map(|r| r.selector.as_str()).collect();
    assert_eq!(
        selectors,
        vec!["head", "body", "link[rel='stylesheet'][href*='rustdoc-']"]
    );
    assert!(
        matches!(&rules[1].change, Change::WrapBody { topbar_html, .. } if topbar_html == "<nav>topbar</nav>")
    );
}

#[test]
fn pages_that_take_too_much_memory() {
    let page = format!("<body class=\"{}\">", "a".repeat(1_000_000));
    let half = page.as_bytes()[..900_000].to_vec();
    let (out, result) = rewrite_rustdoc_html(vec![b"<p>".to_vec(), half], markup(), 2048);
    let err = result.unwrap_err();
    assert!(counts_as_out_of_memory(&err), "{err:?}");
    assert_eq!(out, b"<p>");
    assert!(!counts_as_out_of_memory(&RewriteError::Other("x".into())));
}

#[test]
fn a_page_that_is_streamed() {
    // a page of two pieces, after the first of which the rewriter has written something
    let mut action = StreamAction::Read;
    let mut events: Vec<StreamEvent<&str>> = vec![
        StreamEvent::Chunk(vec![1]),
        StreamEvent::Sent,
        StreamEvent::Output(vec![10]),
        StreamEvent::Output(vec![11]),
        StreamEvent::NoOutput,
        StreamEvent::Chunk(vec![2]),
        StreamEvent::Sent,
        StreamEvent::NoOutput,
        StreamEvent::EndOfPage,
        StreamEvent::Sent,
        StreamEvent::Output(vec![12]),
        StreamEvent::NoOutput,
        StreamEvent::Finished,
    ];
    events.reverse();
    let mut sent = Vec::new();
    let mut out = Vec::new();
    while !matches!(action, StreamAction::Stop) {
        if let StreamAction::Send(chunk) = &action {
            sent.push(chunk.clone());
        }
        let step = action.proceed(events.pop().unwrap());
        out.extend(step.item.map(|item| item.unwrap()));
        action = step.action;
    }
    assert!(events.is_empty());
    assert_eq!(sent, vec![vec![1], vec![2]]);
    assert_eq!(out, vec![vec![10], vec![11], vec![12]]);
}

#[test]
fn failures_of_a_stream() {
    // a page that cannot be read ends the stream
    let step = StreamAction::Read.proceed(StreamEvent::Failed("read"));
    assert_eq!(step.item, Some(Err("read")));
    assert!(matches!(step.action, StreamAction::Stop));
    // a rewriter that takes nothing more is still asked for what it wrote
    let step = StreamAction::Send(vec![1]).proceed(StreamEvent::Failed("send"));
    assert_eq!(step.item, Some(Err("send")));
    assert!(matches!(step.action, StreamAction::SendEnd));
    let step = StreamAction::SendEnd.proceed(StreamEvent::Failed("end"));
    assert_eq!(step.item, Some(Err("end")));
    assert!(matches!(step.action, StreamAction::Receive));
    let step = StreamAction::Join.proceed(StreamEvent::Failed("join"));
    assert_eq!(step.item, Some(Err("join")));
    assert!(matches!(step.action, StreamAction::Stop));
}

#[test]
fn why_a_page_is_not_rewritten() {
    assert!(matches!(
        rewriting_error(None),
        RewriteError::MemoryLimitExceeded
    ));
    assert!(matches!(
        rewriting_error(Some("why".into())),
        RewriteError::Other(message) if message == "why"
    ));
}

#[test]
fn pages_that_are_ambiguous() {
    let pieces = vec![
        b"<p>before</p>".to_vec(),
        b"<select><xmp><script>\"use strict\";</script></select>".to_vec(),
    ];
    let (out, result) = rewrite_rustdoc_html(pieces, markup(), 1024 * 1024);
    assert!(matches!(result, Err(RewriteError::Other(message)) if !message.is_empty()));
    // what was written before goes out
    assert!(out.starts_with(b"<p>before</p>"));
}

#[test]
fn a_page_that_is_rewritten_piece_by_piece() {
    let page = "<head></head><body class=\"rustdoc\"><p>docs</p></body>";
    let mut state = Rewriting::Open(PageRewriter::new(markup(), 1024 * 1024));
    let mut out = Vec::new();
    let mut parts = 0;
    for byte in page.as_bytes() {
        let written = out.len();
        (out, state) = state.proceed(out, PageInput::Piece(vec![*byte]));
        parts += usize::from(out.len() > written);
    }
    (out, state) = state.proceed(out, PageInput::End);
    assert!(matches!(state, Rewriting::Closed(Ok(()))));
    assert!(parts > 1);
    assert_eq!(String::from_utf8(out).unwrap(), rewrite(page));
}

#[test]
fn the_pieces_of_a_page_count_for_the_memory() {
    // a tag that comes at once needs no buffer, and one in pieces does
    let tag = format!("<body class=\"{}\">", "a".repeat(100_000)).into_bytes();
    let (_, result) = rewrite_rustdoc_html(vec![tag.clone()], markup(), 16_384);
    result.unwrap();
    let (first, second) = tag.split_at(90_000);
    let pieces = vec![first.to_vec(), second.to_vec()];
    let (_, result) = rewrite_rustdoc_html(pieces, markup(), 16_384);
    assert!(counts_as_out_of_memory(&result.unwrap_err()));
}

#[test]
fn what_becomes_of_a_page_after_each_call() {
    // a piece that is taken leaves the rewriter open, and what it wrote goes out
    let (out, next) = after_piece(vec![1], vec![2, 3], Ok(7u8));
    assert_eq!(out, vec![1, 2, 3]);
    assert!(matches!(next, Rewriting::Open(7)));
    // so it does when the rewriter fails, and then there is nothing more to do
    let (out, next) = after_piece::<u8>(vec![1], vec![2], Err(None));
    assert_eq!(out, vec![1, 2]);
    assert!(matches!(
        next,
        Rewriting::Closed(Err(RewriteError::MemoryLimitExceeded))
    ));
    let (out, next) = after_piece::<u8>(vec![], vec![2], Err(Some("why".into())));
    assert_eq!(out, vec![2]);
    assert!(matches!(next, Rewriting::Closed(Err(RewriteError::Other(m))) if m == "why"));
    // the end closes the rewriter in any case
    let (out, next) = after_end::<u8>(vec![1], vec![2], Ok(()));
    assert_eq!(out, vec![1, 2]);
    assert!(matches!(next, Rewriting::Closed(Ok(()))));
    let (out, next) = after_end::<u8>(vec![1], vec![2], Err(None));
    assert_eq!(out, vec![1, 2]);
    assert!(matches!(
        next,
        Rewriting::Closed(Err(RewriteError::MemoryLimitExceeded))
    ));
}

#[test]
fn a_page_whose_source_is_lost() {
    let state = Rewriting::Open(PageRewriter::new(markup(), 1024 * 1024));
    let (out, state) = state.proceed(vec![], PageInput::Piece(b"<p>docs</p>".to_vec()));
    let sent = out.clone();
    let (out, state) = state.proceed(out, PageInput::Lost);
    assert_eq!(out, sent);
    assert!(matches!(
        state,
        Rewriting::Closed(Err(RewriteError::Other(m))) if m == "receiving on a closed channel"
    ));
}
