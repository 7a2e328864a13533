use hkmu_ole_attendance::html::{
    attribute_value, first_form_action, form_action_containing, input_value_for, is_login_redirect,
    js_var, script_redirect,
};

#[test]
fn extracts_nam_auto_submit_form_action() {
    let html = r#"<form method="POST" action="/nidp/idff/sso?id=7&sid=0&option=credential&sid=0&target=https%3A%2F%2Fiole.hkmu.edu.hk%2F"></form>"#;
    assert_eq!(
        first_form_action(html).as_deref(),
        Some(
            "/nidp/idff/sso?id=7&sid=0&option=credential&sid=0&target=https%3A%2F%2Fiole.hkmu.edu.hk%2F"
        )
    );
}

#[test]
fn extracts_domino_silent_sso_form_action() {
    let html = r#"<form name="_DominoForm" action="/names.nsf?nov-ss-ff-silent&mastercdnioleLogin33310&Login" method="post"><input value="C01818DC00000000" name="%%ModDate" type="hidden"></form>"#;
    assert_eq!(
        form_action_containing(html, "nov-ss-ff-silent").as_deref(),
        Some("/names.nsf?nov-ss-ff-silent&mastercdnioleLogin33310&Login")
    );
}

#[test]
fn reads_value_declared_before_name() {
    let html = r#"<input maxlength="256" value="s1234567" name="Username"/>"#;
    assert_eq!(input_value_for(html, "Username").as_deref(), Some("s1234567"));
}

#[test]
fn reads_value_declared_after_name() {
    let html = r#"<input type="hidden" name="option" value="credential">"#;
    assert_eq!(input_value_for(html, "option").as_deref(), Some("credential"));
}

#[test]
fn ignores_a_value_belonging_to_a_neighbouring_input() {
    let html = r#"<input value="WRONG" name="a"><input name="b">"#;
    assert_eq!(input_value_for(html, "b"), None);
}

#[test]
fn extracts_javascript_redirect_target() {
    let html = r"<script>window.location.href='https://auth.hkmu.edu.hk:443/nidp/idff/sso?sid=0';</script>";
    assert_eq!(
        script_redirect(html).as_deref(),
        Some("https://auth.hkmu.edu.hk:443/nidp/idff/sso?sid=0")
    );
}

#[test]
fn extracts_string_javascript_variable() {
    let html = r#"<script>var dburl="/course2604/ELEC3050SEF.nsf"; var unid="356D6AE68EED315148258E7900104316"; var attendance_type="2";</script>"#;
    assert_eq!(js_var(html, "unid").as_deref(), Some("356D6AE68EED315148258E7900104316"));
    assert_eq!(js_var(html, "attendance_type").as_deref(), Some("2"));
    assert_eq!(js_var(html, "dburl").as_deref(), Some("/course2604/ELEC3050SEF.nsf"));
}

#[test]
fn extracts_numeric_javascript_variable() {
    let html = r"<script>var time_left_second=0; var time_to_start_second=12;</script>";
    assert_eq!(js_var(html, "time_left_second").as_deref(), Some("0"));
    assert_eq!(js_var(html, "time_to_start_second").as_deref(), Some("12"));
}

#[test]
fn skips_an_earlier_occurrence_that_is_not_an_assignment() {
    let html = r#"<script>// unid= is set later
        var unid="REAL";</script>"#;
    assert_eq!(js_var(html, "unid").as_deref(), Some("REAL"));
}

#[test]
fn reads_an_empty_javascript_variable() {
    let html = r#"<script>var unid=""; var attendance_type="";</script>"#;
    assert_eq!(js_var(html, "unid").as_deref(), Some(""));
    assert_eq!(js_var(html, "missing"), None);
}

#[test]
fn detects_the_login_interstitial_a_revoked_session_produces() {
    let revoked = r#"








        


<html>
    <head>
        <META HTTP-EQUIV="expires" CONTENT="0">
    </head>
    <body>

        <form method="POST" enctype="application/x-www-form-urlencoded" action="/nidp/idff/sso?id=7&sid=0&option=credential&sid=0&target=https%3A%2F%2Fiole.hkmu.edu.hk%2Fcourse2604%2FELEC3050SEF.nsf%2F%2Fclass_activities_student%3Freadform%26"></form>

        <script language="JavaScript">
            <!--
                document.forms[0].submit();
            -->
        </script>
    </body>
</html>


 
"#;
    assert!(is_login_redirect(revoked));
}

#[test]
fn does_not_mistake_a_real_activity_page_for_a_login_redirect() {
    let real = r#"<script>
            var take_url = "/course2604/ELEC3050SEF.nsf/class_activities_student?createdocument&puid=ABC";
        </script>"#;
    assert!(!is_login_redirect(real));
}

#[test]
fn does_not_flag_a_large_page_that_merely_mentions_the_sso_endpoint() {
    let mut big = String::from("<html><body><div>");
    big.push_str(&"real content ".repeat(300));
    big.push_str("/nidp/idff/sso");
    big.push_str("</div><script>document.forms[0].submit();</script></body></html>");
    assert!(!is_login_redirect(&big));
}

#[test]
fn returns_none_for_missing_markers() {
    let html = "<html><body>nothing here</body></html>";
    assert!(first_form_action(html).is_none());
    assert!(input_value_for(html, "Username").is_none());
    assert!(script_redirect(html).is_none());
}

#[test]
fn reads_unquoted_and_case_insensitive_attributes() {
    assert_eq!(attribute_value("<a CLASSID=L01-x href='y'", "classid").as_deref(), Some("L01-x"));
    assert_eq!(attribute_value("<a classid='T01'", "classid").as_deref(), Some("T01"));
    assert_eq!(attribute_value("<a href='y'", "classid"), None);
}

#[test]
fn reads_a_redirect_written_with_double_quotes() {
    let html = r#"<script>window.location.href="https://iole.hkmu.edu.hk/x";</script>"#;
    assert_eq!(script_redirect(html).as_deref(), Some("https://iole.hkmu.edu.hk/x"));
}
