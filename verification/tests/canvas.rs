use lecture_distill::canvas_sjtu::auth::{
    cookie_pair, read_session, AuthEvent, AuthRun, AuthStep, LTI3_AUTH_ACTION, OIDC_ACTION,
};
use lecture_distill::canvas_sjtu::forms::{
    choose_token, extract_form_action_and_inputs, extract_form_inputs_for_action,
    extract_token_id, resolve_url,
};
use lecture_distill::canvas_sjtu::numbers::{parse_seconds_value, value_to_string};
use lecture_distill::canvas_sjtu::slices::{extract_ppt_slices, fetch_ppt_slices_url};
use lecture_distill::canvas_sjtu::subtitles::{
    extract_subtitle_segments, extract_subtitle_text, fetch_subtitles,
    segments_from_canvas_subtitles, subtitle_request,
};
use lecture_distill::canvas_sjtu::videos::{list_videos, resolve_json_array, video_list_body};
use lecture_distill::double::Double;
use lecture_distill::json::{parse, Json};

fn json(text: &str) -> Json {
    parse(text).unwrap()
}

fn items(texts: &[&str]) -> Vec<Json> {
    texts.iter().map(|t| json(t)).collect()
}

#[test]
fn test_extract_token_id_query_param() {
    let location = "https://example.com/lti3?tokenId=abc123&other=stuff";
    let token = extract_token_id(location).unwrap();
    assert_eq!(token, "abc123");
}

#[test]
fn test_extract_token_id_path_segment() {
    let location = "https://example.com/auth/tokenId/xyz789?foo=bar";
    let token = extract_token_id(location).unwrap();
    assert_eq!(token, "xyz789");
}

#[test]
fn test_extract_token_id_equals_in_path() {
    let location = "https://example.com/lti3?tokenId=deadbeef";
    let token = extract_token_id(location).unwrap();
    assert_eq!(token, "deadbeef");
}

#[test]
fn test_extract_token_id_no_match() {
    let location = "https://example.com/no/token/here?other=1";
    let result = extract_token_id(location);
    assert!(result.is_err());
}

#[test]
fn test_extract_token_id_empty() {
    let result = extract_token_id("");
    assert!(result.is_err());
}

#[test]
fn test_extract_ppt_slices_from_data() {
    let data = json(
        r#"{
            "data": [
                {
                    "createSec": "12.5",
                    "pptImgUrl": "https://example.com/1.jpg",
                    "ocr": [{"word": "Alpha"}, {"word": "Beta"}]
                },
                {
                    "createSec": 30,
                    "pptImgUrl": "https://example.com/2.jpg",
                    "ocr": []
                }
            ]
        }"#,
    );

    let slices = extract_ppt_slices(&data);

    assert_eq!(slices.len(), 2);
    assert_eq!(slices[0].create_sec, Double::of_parts(25, 2));
    assert_eq!(
        slices[0].ppt_img_url.as_deref(),
        Some("https://example.com/1.jpg")
    );
    assert_eq!(
        slices[0].ocr_words,
        vec!["Alpha".to_string(), "Beta".to_string()]
    );
    assert_eq!(slices[1].create_sec, Double::of_parts(30, 1));
}

#[test]
fn test_extract_form_standard() {
    let html = r#"
        <html>
        <body>
        <form action="https://v.sjtu.edu.cn/oidc/login_initiations" method="post">
            <input type="hidden" name="iss" value="https://oc.sjtu.edu.cn" />
            <input type="hidden" name="login_hint" value="user123" />
            <input type="submit" value="Go" />
        </form>
        </body>
        </html>
        "#;

    let (action, inputs) = extract_form_action_and_inputs(html).unwrap();
    assert_eq!(action, "https://v.sjtu.edu.cn/oidc/login_initiations");
    assert_eq!(inputs.len(), 2);
    let names: Vec<&str> = inputs.iter().map(|(n, _)| n.as_str()).collect();
    assert!(names.contains(&"iss"));
    assert!(names.contains(&"login_hint"));
}

#[test]
fn test_extract_form_input_value_before_name() {
    let html = r#"
        <form action="/login">
            <input value="val1" name="key1" />
            <input value="val2" name="key2" />
        </form>
        "#;

    let (action, inputs) = extract_form_action_and_inputs(html).unwrap();
    assert_eq!(action, "/login");
    assert_eq!(inputs.len(), 2);
    assert_eq!(inputs[0], ("key1".into(), "val1".into()));
    assert_eq!(inputs[1], ("key2".into(), "val2".into()));
}

#[test]
fn test_extract_form_inputs_for_exact_action() {
    let html = r#"
        <form action="https://example.com/wrong">
            <input name="bad" value="1" />
        </form>
        <form action="https://v.sjtu.edu.cn/jy-application-canvas-sjtu/lti3/lti3Auth/ivs">
            <input name="state" value="abc" />
            <input name="nonce" value="xyz" />
            <input name="submit_without_value" />
        </form>
        "#;

    let inputs = extract_form_inputs_for_action(html, LTI3_AUTH_ACTION).unwrap();
    assert_eq!(inputs.len(), 2);
    assert_eq!(inputs[0], ("state".into(), "abc".into()));
    assert_eq!(inputs[1], ("nonce".into(), "xyz".into()));
}

#[test]
fn test_extract_form_inputs_for_exact_action_missing() {
    let html = r#"<form action="https://example.com/wrong"></form>"#;
    let result = extract_form_inputs_for_action(html, LTI3_AUTH_ACTION);
    assert!(result.is_err());
}

#[test]
fn test_extract_form_missing_action() {
    let html = r#"<form><input name="x" value="y" /></form>"#;
    let result = extract_form_action_and_inputs(html);
    assert!(result.is_err());
}

#[test]
fn test_extract_form_no_form_element() {
    let html = r#"<html><body><p>No form here</p></body></html>"#;
    let result = extract_form_action_and_inputs(html);
    assert!(result.is_err());
}

#[test]
fn test_value_to_string_accepts_strings_and_numbers() {
    assert_eq!(value_to_string(&json(r#""42""#)).unwrap(), "42");
    assert_eq!(value_to_string(&json("42")).unwrap(), "42");
    assert_eq!(value_to_string(&Json::Number(42)).unwrap(), "42");
}

#[test]
fn test_segments_from_standard_sjtu_items() {
    let items = items(&[
        r#"{"bg": 0, "ed": 5000, "res": "Hello world"}"#,
        r#"{"bg": 5000, "ed": 10000, "res": "Second sentence"}"#,
    ]);

    let segments = segments_from_canvas_subtitles(&items);
    assert_eq!(segments.len(), 2);

    assert_eq!(segments[0].index, 1);
    assert_eq!(segments[0].start_time, Double::of_parts(0, 1000));
    assert_eq!(segments[0].end_time, Double::of_parts(5000, 1000));
    assert_eq!(segments[0].text, "Hello world");

    assert_eq!(segments[1].index, 2);
    assert_eq!(segments[1].start_time, Double::of_parts(5000, 1000));
    assert_eq!(segments[1].end_time, Double::of_parts(10000, 1000));
    assert_eq!(segments[1].text, "Second sentence");
}

#[test]
fn test_segments_with_alternative_field_names() {
    let items = items(&[
        r#"{"startTime": 1000, "endTime": 3000, "oneSentence": "Alt fields"}"#,
        r#"{"start": 3000, "end": 6000, "res": "Third sentence"}"#,
    ]);

    let segments = segments_from_canvas_subtitles(&items);
    assert_eq!(segments.len(), 2);
    assert_eq!(segments[0].start_time, Double::of_parts(1000, 1000));
    assert_eq!(segments[0].end_time, Double::of_parts(3000, 1000));
    assert_eq!(segments[0].text, "Alt fields");
    assert_eq!(segments[1].text, "Third sentence");
}

#[test]
fn test_segments_skips_empty_text() {
    let items = items(&[
        r#"{"bg": 0, "ed": 1000, "res": ""}"#,
        r#"{"bg": 1000, "ed": 2000, "res": "  "}"#,
        r#"{"bg": 2000, "ed": 3000, "res": "Real text"}"#,
    ]);

    let segments = segments_from_canvas_subtitles(&items);
    assert_eq!(segments.len(), 1);
    assert_eq!(segments[0].text, "Real text");
    assert_eq!(segments[0].index, 3);
}

#[test]
fn test_segments_default_end_time() {
    let items = items(&[r#"{"bg": 2000, "res": "No end"}"#]);

    let segments = segments_from_canvas_subtitles(&items);
    assert_eq!(segments.len(), 1);
    assert_eq!(segments[0].start_time, Double::of_parts(2000, 1000));
    assert_eq!(segments[0].end_time, Double::of_parts(3000, 1000));
}

#[test]
fn test_extract_subtitle_text_string_input() {
    let data = json(r#""Plain subtitle text""#);
    let text = extract_subtitle_text(&data, "");
    assert_eq!(text, "Plain subtitle text");
}

#[test]
fn test_extract_subtitle_text_dict_with_known_key() {
    let data = json(r#"{"subtitles": "SRT content here"}"#);
    let text = extract_subtitle_text(&data, "");
    assert_eq!(text, "SRT content here");
}

#[test]
fn test_extract_subtitle_text_dict_with_content_key() {
    let data = json(r#"{"content": "Some content text"}"#);
    let text = extract_subtitle_text(&data, "");
    assert_eq!(text, "Some content text");
}

#[test]
fn test_extract_subtitle_text_nested_list_fallback() {
    let data = json(
        r#"{
            "records": [
                {"bg": 0, "ed": 2000, "res": "Line one"},
                {"bg": 2000, "ed": 4000, "res": "Line two"}
            ]
        }"#,
    );
    let text = extract_subtitle_text(&data, "");
    assert!(text.contains("Line one"));
    assert!(text.contains("Line two"));
    assert_eq!(text, "Line one\nLine two");
}

#[test]
fn test_extract_subtitle_text_fallback_pretty() {
    let source = r#"{"unknown_key": [1, 2, 3]}"#;
    let pretty =
        serde_json::to_string_pretty(&serde_json::from_str::<serde_json::Value>(source).unwrap())
            .unwrap();
    let text = extract_subtitle_text(&json(source), &pretty);
    assert!(text.contains("unknown_key"));
}

#[test]
fn test_extract_subtitle_segments_from_before_assembly_list() {
    let data = json(
        r#"{
            "beforeAssemblyList": [
                {"bg": 0, "ed": 3000, "res": "Segment one"},
                {"bg": 3000, "ed": 6000, "res": "Segment two"}
            ]
        }"#,
    );
    let segments = extract_subtitle_segments(&data);
    assert_eq!(segments.len(), 2);
    assert_eq!(segments[0].text, "Segment one");
    assert_eq!(segments[1].text, "Segment two");
}

#[test]
fn test_extract_subtitle_segments_from_after_assembly_list() {
    let data = json(
        r#"{"afterAssemblyList": [{"bg": 0, "ed": 5000, "res": "After segment"}]}"#,
    );
    let segments = extract_subtitle_segments(&data);
    assert_eq!(segments.len(), 1);
    assert_eq!(segments[0].text, "After segment");
}

#[test]
fn test_extract_subtitle_segments_from_nested_data() {
    let data = json(
        r#"{"data": {"beforeAssemblyList": [{"bg": 0, "ed": 4000, "res": "Nested segment"}]}}"#,
    );
    let segments = extract_subtitle_segments(&data);
    assert_eq!(segments.len(), 1);
    assert_eq!(segments[0].text, "Nested segment");
}

#[test]
fn test_extract_subtitle_segments_empty() {
    let data = json(r#"{"nothing": "useful"}"#);
    let segments = extract_subtitle_segments(&data);
    assert!(segments.is_empty());
}

#[test]
fn test_resolve_url_absolute() {
    let result = resolve_url("https://v.sjtu.edu.cn", "https://other.example.com/path");
    assert_eq!(result, "https://other.example.com/path");
}

#[test]
fn test_resolve_url_absolute_path() {
    let result = resolve_url("https://v.sjtu.edu.cn", "/api/endpoint");
    assert_eq!(result, "https://v.sjtu.edu.cn/api/endpoint");
}

#[test]
fn test_resolve_url_relative() {
    let result = resolve_url("https://v.sjtu.edu.cn/base", "sub/path");
    assert_eq!(result, "https://v.sjtu.edu.cn/base/sub/path");
}

#[test]
fn test_resolve_json_array_top_level() {
    let json = json("[1, 2, 3]");
    let items = resolve_json_array(&json).unwrap();
    assert_eq!(items.len(), 3);
}

#[test]
fn test_resolve_json_array_under_data() {
    let json = json(r#"{"data": [{"id": "a"}, {"id": "b"}]}"#);
    let items = resolve_json_array(&json).unwrap();
    assert_eq!(items.len(), 2);
}

#[test]
fn test_resolve_json_array_under_data_records() {
    let json = json(r#"{"data": {"records": [{"x": 1}]}}"#);
    let items = resolve_json_array(&json).unwrap();
    assert_eq!(items.len(), 1);
}

#[test]
fn test_resolve_json_array_missing() {
    let json = json(r#"{"unknown": "stuff"}"#);
    let items = resolve_json_array(&json);
    assert!(items.map_or(true, |list| list.is_empty()));
}

#[test]
fn relative_addresses_without_an_origin_are_appended() {
    assert_eq!(resolve_url("not a url/", "/x"), "not a url/x");
    assert_eq!(resolve_url("base//", "y"), "base/y");
}

#[test]
fn tokens_are_chosen_in_order() {
    let query = Some(vec![("tokenId".to_string(), "q".to_string())]);
    let equals = Some(vec![None, Some("e".to_string())]);
    let path = Some(vec![None, Some("p".to_string())]);
    assert_eq!(choose_token(query, equals, path).as_deref(), Some("q"));
    let equals = Some(vec![None, Some("e".to_string())]);
    let path = Some(vec![None, Some("p".to_string())]);
    assert_eq!(choose_token(None, equals, path).as_deref(), Some("e"));
    let path = Some(vec![None, Some("p".to_string())]);
    assert_eq!(choose_token(None, None, path).as_deref(), Some("p"));
    assert!(choose_token(None, None, None).is_none());
}

#[test]
fn encoded_query_values_are_decoded() {
    let token = extract_token_id("https://example.com/x?tokenId=a%2Bb+c").unwrap();
    assert_eq!(token, "a+b c");
}

#[test]
fn seconds_are_numbers_or_texts() {
    assert_eq!(parse_seconds_value(&json("30")), Some(Double::of_parts(30, 1)));
    assert_eq!(parse_seconds_value(&json("12.5")), Some(Double::of_parts(25, 2)));
    assert_eq!(parse_seconds_value(&json(r#"" 0.1234567 ""#)), Some(Double::of_parts(1234567, 10000000)));
    assert_eq!(parse_seconds_value(&json(r#""soon""#)), None);
    assert_eq!(parse_seconds_value(&json("null")), None);
}

#[test]
fn slices_are_sorted_and_apart() {
    let data = json(
        r#"[{"time": 5}, {"time": 1}, {"time": "1.0004"}, {"word": 2}, {"time": 1.002},
            {"time": "inf"}, {"time": -3}, {"time": "inf"}, {"time": 1e-20}]"#,
    );
    let times: Vec<String> =
        extract_ppt_slices(&data).iter().map(|s| s.create_sec.show(true)).collect();
    assert_eq!(times, vec!["-3.0", "0.0", "1.0", "1.0", "5.0", "inf", "inf"]);
}

#[test]
fn slices_are_asked_for_by_the_course() {
    let info = json(r#"{"data": {"courId": 77}}"#);
    assert_eq!(
        fetch_ppt_slices_url(&info).unwrap(),
        "https://v.sjtu.edu.cn/jy-application-canvas-sjtu/directOnDemandPlay/vod-analysis/query-ppt-slice-es?ivsVideoId=77"
    );
    assert_eq!(
        fetch_ppt_slices_url(&json("{}")).unwrap_err(),
        "Could not extract courId from video info for PPT slices"
    );
}

#[test]
fn videos_without_an_identifier_are_passed_over() {
    let answer = json(
        r#"{"result": {"list": [
            {"videoId": 9, "videoName": "One", "duration": 61, "userName": "T", "clroName": "R"},
            {"title": "Two"},
            {"vodId": "x"}
        ]}}"#,
    );
    let videos = list_videos(&answer);
    assert_eq!(videos.len(), 2);
    assert_eq!(videos[0].video_id, "9");
    assert_eq!(videos[0].title, "One");
    assert_eq!(videos[0].duration, 61);
    assert_eq!(videos[0].teacher, "T");
    assert_eq!(videos[0].classroom, "R");
    assert_eq!(videos[1].video_id, "x");
    assert_eq!(videos[1].title, "Untitled");
    assert_eq!(videos[1].course_begin_time, "");
}

#[test]
fn courses_are_encoded_as_in_a_form() {
    let body = video_list_body("a b/é");
    assert_eq!(
        body.get("canvasCourseId").unwrap().as_str(),
        Some("a+b%2F%C3%A9")
    );
}

#[test]
fn transcripts_take_title_and_time_from_the_video() {
    let info = json(r#"{"data": {"videName": "Lecture", "videBeginTime": "2025", "id": "c1"}}"#);
    let request = subtitle_request(&info).unwrap();
    assert_eq!(request.get("courseId").unwrap().as_str(), Some("c1"));
    let answer = json(r#"{"data": {"afterAssemblyList": [{"bg": 1, "res": " hi "}]}}"#);
    let transcript = fetch_subtitles("v1", "course", &info, &answer);
    assert_eq!(transcript.video_id, "v1");
    assert_eq!(transcript.course_id, "course");
    assert_eq!(transcript.video_title, "Lecture");
    assert_eq!(transcript.recorded_at.as_deref(), Some("2025"));
    assert_eq!(transcript.segments.len(), 1);
    assert_eq!(transcript.segments[0].text, "hi");
    assert_eq!(transcript.segments[0].end_time, Double::of_parts(1001, 1000));
    assert_eq!(
        subtitle_request(&json(r#"{"data": {}}"#)).unwrap_err(),
        "Could not extract courId from video info"
    );
}

#[test]
fn cookies_get_their_name_once() {
    assert_eq!(cookie_pair(" abc "), "JAAuthCookie=abc");
    assert_eq!(cookie_pair(" JAAuthCookie=abc"), "JAAuthCookie=abc");
}

#[test]
fn sessions_need_course_and_token() {
    let session =
        read_session("c", &json(r#"{"data": {"params": {"courId": "k"}, "token": "t"}}"#)).unwrap();
    assert_eq!(session.course_id, "c");
    assert_eq!(session.canvas_course_id, "k");
    assert_eq!(session.token, "t");
    let session =
        read_session("c", &json(r#"{"data": {"canvasCourseId": "m", "token": "t"}}"#)).unwrap();
    assert_eq!(session.canvas_course_id, "m");
    assert_eq!(
        read_session("c", &json(r#"{"data": {"token": "t"}}"#)).unwrap_err(),
        "Could not extract canvas course ID"
    );
    assert_eq!(
        read_session("c", &json(r#"{"data": {"canvasCourseId": "m"}}"#)).unwrap_err(),
        "Could not extract access token"
    );
}

#[test]
fn login_goes_through_its_steps() {
    let mut run = AuthRun::new();
    assert!(matches!(run.authenticate("5", AuthEvent::Begin), AuthStep::Get(_)));
    match run.authenticate("5", AuthEvent::Answered(Some("oc.sjtu.edu.cn".to_string()))) {
        AuthStep::Get(url) => {
            assert_eq!(url, "https://oc.sjtu.edu.cn/courses/5/external_tools/8329")
        }
        other => panic!("unexpected step {:?}", other),
    }
    let page = format!(r#"<form action="{}"><input name="a" value="1"></form>"#, OIDC_ACTION);
    match run.authenticate("5", AuthEvent::Page(page)) {
        AuthStep::Post(url, inputs) => {
            assert_eq!(url, OIDC_ACTION);
            assert_eq!(inputs, vec![("a".to_string(), "1".to_string())]);
        }
        other => panic!("unexpected step {:?}", other),
    }
    let page = format!(r#"<form action="{}"><input name="b" value="2"></form>"#, LTI3_AUTH_ACTION);
    match run.authenticate("5", AuthEvent::Page(page)) {
        AuthStep::PostHere(url, inputs) => {
            assert_eq!(url, LTI3_AUTH_ACTION);
            assert_eq!(inputs, vec![("b".to_string(), "2".to_string())]);
        }
        other => panic!("unexpected step {:?}", other),
    }
    let location = "https://v.sjtu.edu.cn/x?tokenId=tok".to_string();
    match run.authenticate("5", AuthEvent::Location(Some(location))) {
        AuthStep::Get(url) => assert_eq!(
            url,
            "https://v.sjtu.edu.cn/jy-application-canvas-sjtu/lti3/getAccessTokenByTokenId?tokenId=tok"
        ),
        other => panic!("unexpected step {:?}", other),
    }
    let answer = json(r#"{"data": {"canvasCourseId": "m", "token": "t"}}"#);
    match run.authenticate("5", AuthEvent::Answer(answer)) {
        AuthStep::Finish(session) => assert_eq!(session.token, "t"),
        other => panic!("unexpected step {:?}", other),
    }
}

#[test]
fn login_stops_where_the_account_is_asked_for() {
    let mut run = AuthRun::new();
    run.authenticate("5", AuthEvent::Begin);
    match run.authenticate("5", AuthEvent::Answered(Some("jaccount.sjtu.edu.cn".to_string()))) {
        AuthStep::Fail(error) => assert!(error.contains("JAAuthCookie may be invalid")),
        other => panic!("unexpected step {:?}", other),
    }
}

#[test]
fn identifiers_are_plain_numerals() {
    assert_eq!(value_to_string(&json("5.0")).unwrap(), "5");
    assert_eq!(value_to_string(&json("-12")).unwrap(), "-12");
    assert_eq!(value_to_string(&json("2.50")).unwrap(), "2.5");
    assert_eq!(value_to_string(&json("1e21")).unwrap(), "1000000000000000000000");
    assert_eq!(value_to_string(&json("1e-7")).unwrap(), "0.0000001");
}

#[test]
fn parts_of_milliseconds_are_not_lost() {
    for (item, start, end) in [
        (r#"{"bg": 2500.9, "res": "a"}"#, "3", "4"),
        (r#"{"bg": 2500, "ed": 2500.4, "res": "a"}"#, "2", "3"),
        (r#"{"bg": -700, "res": "a"}"#, "-1", "0"),
        (r#"{"bg": -0.5, "ed": 1e9, "res": "a"}"#, "-0", "1000000"),
    ] {
        let segments = segments_from_canvas_subtitles(&items(&[item]));
        assert_eq!(segments[0].start_time.show(false), start, "{}", item);
        assert_eq!(segments[0].end_time.show(false), end, "{}", item);
    }
}

#[test]
fn course_identifiers_are_form_encoded() {
    let body = video_list_body("a b/\u{e9}*-._");
    match body.get("canvasCourseId") {
        Some(Json::Text(t)) => assert_eq!(t, "a+b%2F%C3%A9*-._"),
        _ => panic!("no course in the request"),
    }
}
