use dns_bench::duration::Duration;
use dns_bench::result::TimeResult;
use dns_bench::xml::{
    conversion_result, convert_result_entries_to_xml_string, XmlConversionError, XmlResultEntry,
};

#[test]
fn xml_test_conversion() {
    let result_entries = vec![
        XmlResultEntry {
            name: String::from("Google"),
            ip: String::from("8.8.8.8"),
            last_resolved_ip: String::from("8.8.8.8"),
            total_requests: 3,
            successful_requests: 2,
            successful_requests_percentage: 66.66667f32.to_string(),
            first_duration: TimeResult::Succeeded(Duration::new(0, 100)),
            average_duration: TimeResult::Succeeded(Duration::new(0, 150)),
        },
        XmlResultEntry {
            name: String::from("Cloudflare"),
            ip: String::from("1.1.1.1"),
            last_resolved_ip: String::from("1.1.1.1"),
            total_requests: 3,
            successful_requests: 3,
            successful_requests_percentage: 100.0f32.to_string(),
            first_duration: TimeResult::Succeeded(Duration::new(0, 50)),
            average_duration: TimeResult::Succeeded(Duration::new(0, 60)),
        },
    ];
    let xml_string = convert_result_entries_to_xml_string(result_entries).unwrap();
    let expected_string = "<DnsBenchResultEntries><ResultEntry><Name>Google</Name><Ip>8.8.8.8</Ip><LastResolvedIp>8.8.8.8</LastResolvedIp><SuccessfulRequests><TotalRequests>3</TotalRequests><SuccessfulRequests>2</SuccessfulRequests><SuccessfulRequestsPercentage>66.66667</SuccessfulRequestsPercentage></SuccessfulRequests><FirstDuration type=\"succeeded\">100ns</FirstDuration><AverageDuration type=\"succeeded\">150ns</AverageDuration></ResultEntry><ResultEntry><Name>Cloudflare</Name><Ip>1.1.1.1</Ip><LastResolvedIp>1.1.1.1</LastResolvedIp><SuccessfulRequests><TotalRequests>3</TotalRequests><SuccessfulRequests>3</SuccessfulRequests><SuccessfulRequestsPercentage>100</SuccessfulRequestsPercentage></SuccessfulRequests><FirstDuration type=\"succeeded\">50ns</FirstDuration><AverageDuration type=\"succeeded\">60ns</AverageDuration></ResultEntry></DnsBenchResultEntries>";
    assert_eq!(xml_string, expected_string);
}

#[test]
fn xml_of_no_entries() {
    assert_eq!(
        convert_result_entries_to_xml_string(vec![]).unwrap(),
        "<DnsBenchResultEntries></DnsBenchResultEntries>"
    );
}

#[test]
fn xml_escapes_text_and_marks_failures() {
    let xml = convert_result_entries_to_xml_string(vec![XmlResultEntry {
        name: String::from("R&D <\"lab\"> 'a' \u{e9}"),
        ip: String::from("::1"),
        last_resolved_ip: String::from("0.0.0.0"),
        total_requests: -2,
        successful_requests: 0,
        successful_requests_percentage: String::from("0"),
        first_duration: TimeResult::Failed(String::from("No <responses> & more")),
        average_duration: TimeResult::Succeeded(Duration::new(1, 500_000_000)),
    }])
    .unwrap();
    assert_eq!(
        xml,
        "<DnsBenchResultEntries><ResultEntry>\
         <Name>R&amp;D &lt;&quot;lab&quot;&gt; &apos;a&apos; \u{e9}</Name>\
         <Ip>::1</Ip><LastResolvedIp>0.0.0.0</LastResolvedIp>\
         <SuccessfulRequests><TotalRequests>-2</TotalRequests>\
         <SuccessfulRequests>0</SuccessfulRequests>\
         <SuccessfulRequestsPercentage>0</SuccessfulRequestsPercentage></SuccessfulRequests>\
         <FirstDuration type=\"failed\">No &lt;responses&gt; &amp; more</FirstDuration>\
         <AverageDuration type=\"succeeded\">1.5s</AverageDuration>\
         </ResultEntry></DnsBenchResultEntries>"
    );
}

#[test]
fn xml_writes_the_smallest_count() {
    let xml = convert_result_entries_to_xml_string(vec![XmlResultEntry {
        name: String::new(),
        ip: String::new(),
        last_resolved_ip: String::new(),
        total_requests: i32::MIN,
        successful_requests: i32::MAX,
        successful_requests_percentage: String::new(),
        first_duration: TimeResult::Failed(String::new()),
        average_duration: TimeResult::Failed(String::new()),
    }])
    .unwrap();
    assert!(xml.contains("<TotalRequests>-2147483648</TotalRequests>"));
    assert!(xml.contains("<SuccessfulRequests>2147483647</SuccessfulRequests>"));
    assert!(xml.contains("<Name></Name>"));
    assert!(xml.contains("<FirstDuration type=\"failed\"></FirstDuration>"));
}

#[test]
fn conversion_gives_the_text_where_nothing_failed() {
    let text = String::from_utf8(b"<a>\xc3\xa9</a>".to_vec());
    match conversion_result(Ok(()), text) {
        Ok(s) => assert_eq!(s, "<a>\u{e9}</a>"),
        Err(e) => panic!("{e:?}"),
    }
}

#[test]
fn conversion_gives_the_error_of_the_writing_first() {
    let failed = || Err(std::io::Error::new(std::io::ErrorKind::WriteZero, "no room"));
    match conversion_result(failed(), Ok(String::from("<a>"))) {
        Err(XmlConversionError::Io(e)) => {
            assert_eq!(e.kind(), std::io::ErrorKind::WriteZero);
            assert_eq!(e.to_string(), "no room");
        }
        other => panic!("{other:?}"),
    }
    match conversion_result(failed(), String::from_utf8(vec![0xff])) {
        Err(XmlConversionError::Io(e)) => assert_eq!(e.to_string(), "no room"),
        other => panic!("{other:?}"),
    }
}

#[test]
fn conversion_gives_the_error_of_the_reading_where_the_bytes_are_no_text() {
    match conversion_result(Ok(()), String::from_utf8(vec![b'<', 0xff, b'>'])) {
        Err(XmlConversionError::FromUtf8(e)) => {
            assert_eq!(e.as_bytes(), [b'<', 0xff, b'>']);
            assert_eq!(e.utf8_error().valid_up_to(), 1);
        }
        other => panic!("{other:?}"),
    }
}
