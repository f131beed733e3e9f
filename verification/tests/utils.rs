use bytes::Bytes;
use nucleus_http::utils::parse_query_string;

#[test]
fn test_query_string() {
    let query_string = "flavor=vanilla&food=ice cream";
    let query_bytes = Bytes::from_static(query_string.as_bytes());
    let query = parse_query_string(&query_bytes).expect("Error Parsing Query String");
    assert_eq!(
        "vanilla",
        query.get("flavor").expect("Flavor Missing in Map")
    );
    assert_eq!("ice cream", query.get("food").expect("Food Misisng in map"));
}
