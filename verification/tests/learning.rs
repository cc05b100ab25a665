#[test]
fn test_learning_unwrap_or_default() {
    let err_vec: Result<Vec<String>, Vec<String>> = Err(vec!["abc".to_string()]);

    let res = err_vec.unwrap_or_default();

    assert_eq!(res, Vec::<String>::new());
}

#[test]
fn learning_collecting_results_stops_at_the_first_error() {
    let vec = vec![1, 2, 3];

    let mut count = 0;
    let res: Result<Vec<i32>, String> = vec
        .into_iter()
        .map(|e| {
            println!("--- {}", e);
            count += 1;
            if e == 1 {
                Err("one".into())
            } else {
                Ok(e)
            }
        })
        .collect();

    assert_eq!(res, Err("one".into()));
    assert_eq!(count, 1);
}
