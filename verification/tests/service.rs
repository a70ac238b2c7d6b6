use todo_server::model::{DataAccessError, HttpResponse, List, Todo};
use todo_server::router::{parse_i64, route, Route};
use todo_server::service::{
    bad_request_response, error_response, handle_get_lists, handle_get_todos, not_found_response,
};

fn lists_response(rows: Vec<List>) -> HttpResponse {
    handle_get_lists(Ok(rows))
}

fn todos_response(rows: Vec<Todo>, list_id: i64) -> HttpResponse {
    handle_get_todos(Ok(rows), list_id)
}

#[test]
fn test_lists() {
    let r = route(&b"/lists".to_vec());
    assert_eq!(r, Route::Lists);

    let response = lists_response(Vec::new());
    assert_eq!(response.status, 200);
    let body: serde_json::Value = serde_json::from_slice(&response.body).unwrap();
    assert_eq!(body, serde_json::Value::Array(Vec::new()));
}

#[test]
fn empty_lists_table_yields_empty_array() {
    let response = lists_response(Vec::new());
    assert_eq!(response.status, 200);
    assert_eq!(response.body, b"[]".to_vec());
}

#[test]
fn empty_todos_table_yields_empty_array_for_any_id() {
    for id in [0i64, 1, -7, i64::MAX] {
        let response = todos_response(Vec::new(), id);
        assert_eq!(response.status, 200);
        assert_eq!(response.body, b"[]".to_vec());
    }
}

#[test]
fn lists_come_back_in_ascending_id_order() {
    let rows = vec![
        List { id: 1, name: b"zebra".to_vec() },
        List { id: 2, name: b"yak".to_vec() },
        List { id: 3, name: b"ant".to_vec() },
    ];
    let response = lists_response(rows);
    assert_eq!(response.status, 200);
    assert_eq!(
        response.body,
        b"[{\"id\":1,\"name\":\"zebra\"},{\"id\":2,\"name\":\"yak\"},{\"id\":3,\"name\":\"ant\"}]"
            .to_vec()
    );

    // the same rows handed over in another order give the same answer
    let shuffled = vec![
        List { id: 3, name: b"ant".to_vec() },
        List { id: 1, name: b"zebra".to_vec() },
        List { id: 2, name: b"yak".to_vec() },
    ];
    let again = lists_response(shuffled);
    assert_eq!(
        again.body,
        b"[{\"id\":1,\"name\":\"zebra\"},{\"id\":2,\"name\":\"yak\"},{\"id\":3,\"name\":\"ant\"}]"
            .to_vec()
    );
}

#[test]
fn todos_come_back_ordered_by_id() {
    let rows = vec![
        Todo { id: 5, text: b"five".to_vec(), checked: false, list_id: 1 },
        Todo { id: 2, text: b"two".to_vec(), checked: true, list_id: 1 },
        Todo { id: 9, text: b"nine".to_vec(), checked: false, list_id: 1 },
    ];
    let response = todos_response(rows, 1);
    assert_eq!(response.status, 200);
    assert_eq!(
        response.body,
        b"[{\"id\":2,\"text\":\"two\",\"checked\":true,\"list_id\":1},\
           {\"id\":5,\"text\":\"five\",\"checked\":false,\"list_id\":1},\
           {\"id\":9,\"text\":\"nine\",\"checked\":false,\"list_id\":1}]"
            .to_vec()
    );
}

#[test]
fn todos_of_other_lists_are_filtered_out() {
    let rows = vec![
        Todo { id: 1, text: b"keep".to_vec(), checked: false, list_id: 4 },
        Todo { id: 2, text: b"drop".to_vec(), checked: false, list_id: 5 },
    ];
    let response = todos_response(rows, 4);
    assert_eq!(
        response.body,
        b"[{\"id\":1,\"text\":\"keep\",\"checked\":false,\"list_id\":4}]".to_vec()
    );

    let rows = vec![Todo { id: 2, text: b"drop".to_vec(), checked: false, list_id: 5 }];
    let none = todos_response(rows, 4);
    assert_eq!(none.body, b"[]".to_vec());
}

#[test]
fn non_integer_id_is_a_bad_request() {
    assert_eq!(route(&b"/lists/abc/todos".to_vec()), Route::BadTodoId);
    let response = bad_request_response();
    assert_eq!(response.status, 400);
}

#[test]
fn routing_matches_only_the_two_routes() {
    assert_eq!(route(&b"/lists".to_vec()), Route::Lists);
    assert_eq!(route(&b"/lists/12/todos".to_vec()), Route::Todos(12));
    assert_eq!(route(&b"/lists/-5/todos".to_vec()), Route::Todos(-5));
    assert_eq!(route(&b"/lists/+7/todos".to_vec()), Route::Todos(7));
    assert_eq!(route(&b"/lists/007/todos".to_vec()), Route::Todos(7));
    assert_eq!(route(&b"/lists/".to_vec()), Route::NotFound);
    assert_eq!(route(&b"/lists//todos".to_vec()), Route::NotFound);
    assert_eq!(route(&b"/lists/1/2/todos".to_vec()), Route::NotFound);
    assert_eq!(route(&b"/lists/1/todos/".to_vec()), Route::NotFound);
    assert_eq!(route(&b"/todos".to_vec()), Route::NotFound);
    assert_eq!(route(&b"/".to_vec()), Route::NotFound);
    assert_eq!(route(&b"".to_vec()), Route::NotFound);
    let response = not_found_response();
    assert_eq!(response.status, 404);
}

#[test]
fn id_parsing_covers_the_whole_64_bit_range_and_nothing_more() {
    assert_eq!(parse_i64(&b"0".to_vec()), Some(0));
    assert_eq!(parse_i64(&b"12".to_vec()), Some(12));
    assert_eq!(parse_i64(&b"-12".to_vec()), Some(-12));
    assert_eq!(parse_i64(&b"+12".to_vec()), Some(12));
    assert_eq!(parse_i64(&b"9223372036854775807".to_vec()), Some(i64::MAX));
    assert_eq!(parse_i64(&b"9223372036854775808".to_vec()), None);
    assert_eq!(parse_i64(&b"-9223372036854775808".to_vec()), Some(i64::MIN));
    assert_eq!(parse_i64(&b"-9223372036854775809".to_vec()), None);
    assert_eq!(parse_i64(&b"99999999999999999999999999".to_vec()), None);
    assert_eq!(parse_i64(&b"".to_vec()), None);
    assert_eq!(parse_i64(&b"-".to_vec()), None);
    assert_eq!(parse_i64(&b"+".to_vec()), None);
    assert_eq!(parse_i64(&b"1a".to_vec()), None);
    assert_eq!(parse_i64(&b" 1".to_vec()), None);
    assert_eq!(parse_i64(&b"1.5".to_vec()), None);
}

#[test]
fn data_failure_gives_opaque_500_body() {
    let err = DataAccessError { detail: b"connection refused (os error 111)".to_vec() };
    let response = handle_get_lists(Err(err));
    assert_eq!(response.status, 500);
    assert_eq!(response.body, b"{\"error\":\"Something went wrong\"}".to_vec());

    let err = DataAccessError { detail: b"table todos is locked".to_vec() };
    let response = handle_get_todos(Err(err), 3);
    assert_eq!(response.status, 500);
    assert_eq!(response.body, b"{\"error\":\"Something went wrong\"}".to_vec());

    let direct = error_response(&DataAccessError { detail: b"secret detail".to_vec() });
    assert_eq!(direct.status, 500);
    assert_eq!(direct.body, b"{\"error\":\"Something went wrong\"}".to_vec());
}

#[test]
fn repeated_reads_are_byte_identical() {
    let rows = || {
        vec![
            Todo { id: 8, text: b"walk".to_vec(), checked: false, list_id: 2 },
            Todo { id: 3, text: b"shop".to_vec(), checked: true, list_id: 2 },
        ]
    };
    let first = todos_response(rows(), 2);
    let second = todos_response(rows(), 2);
    assert_eq!(first.status, second.status);
    assert_eq!(first.body, second.body);

    let lists = || vec![List { id: 1, name: b"home".to_vec() }];
    let first = lists_response(lists());
    let second = lists_response(lists());
    assert_eq!(first.body, second.body);
}

#[test]
fn string_escaping_matches_the_reference_encoder() {
    let names: Vec<&[u8]> = vec![
        b"plain",
        b"with \"quotes\"",
        b"back\\slash",
        b"line\nbreak\ttab\rcr",
        b"ctrl \x01\x02\x1f end",
        b"unicode \xc3\xa9\xe2\x98\x83",
        b"",
    ];
    for name in names {
        let rows = vec![List { id: 1, name: name.to_vec() }];
        let response = lists_response(rows);
        let expected = format!(
            "[{{\"id\":1,\"name\":{}}}]",
            serde_json::to_string(&String::from_utf8(name.to_vec()).unwrap()).unwrap()
        );
        assert_eq!(String::from_utf8(response.body).unwrap(), expected);
    }
}

#[test]
fn extreme_ids_encode_exactly() {
    let rows = vec![
        List { id: i64::MIN, name: b"low".to_vec() },
        List { id: -1, name: b"neg".to_vec() },
        List { id: i64::MAX, name: b"high".to_vec() },
    ];
    let response = lists_response(rows);
    assert_eq!(
        String::from_utf8(response.body).unwrap(),
        "[{\"id\":-9223372036854775808,\"name\":\"low\"},{\"id\":-1,\"name\":\"neg\"},\
         {\"id\":9223372036854775807,\"name\":\"high\"}]"
    );
}

#[test]
fn todo_objects_carry_all_four_fields() {
    let rows = vec![Todo { id: 1, text: b"t".to_vec(), checked: true, list_id: -2 }];
    let response = todos_response(rows, -2);
    let body: serde_json::Value = serde_json::from_slice(&response.body).unwrap();
    let arr = body.as_array().unwrap();
    assert_eq!(arr.len(), 1);
    assert_eq!(arr[0].get("id").unwrap().as_i64().unwrap(), 1);
    assert_eq!(arr[0].get("text").unwrap().as_str().unwrap(), "t");
    assert!(arr[0].get("checked").unwrap().as_bool().unwrap());
    assert_eq!(arr[0].get("list_id").unwrap().as_i64().unwrap(), -2);
}

#[test]
fn equal_ids_keep_every_row() {
    let rows = vec![
        List { id: 4, name: b"a".to_vec() },
        List { id: 4, name: b"b".to_vec() },
    ];
    let response = lists_response(rows);
    let body: serde_json::Value = serde_json::from_slice(&response.body).unwrap();
    assert_eq!(body.as_array().unwrap().len(), 2);
}
