use service_core::database::Database;
use service_core::database::DatabaseOperation;
use service_core::database::Transaction;
use service_core::database::User;
use service_core::errors::ResourceError;
use service_core::fib::fib_iterative;
use service_core::fib::fib_recursive;
use service_core::fib::fibonacci;
use service_core::numtext::parse_u64;
use service_core::numtext::u64_to_text;
use service_core::registry::SharedRegistry;
use service_core::stats::filter_and_transform;
use service_core::stats::find_most_frequent;
use service_core::stats::process_strings;
use service_core::tasklist::Task;
use service_core::tasklist::TaskManager;
use service_core::tasklist::TodoStatus;
use service_core::text::TextContext;
use service_core::traits::Cloneable;
use service_core::traits::Collection;
use service_core::traits::Counter;
use service_core::traits::MyIterator;
use service_core::traits::Person;
use service_core::traits::Processor;
use service_core::traits::IntProcessor;
use service_core::traits::StringCollection;
use service_core::traits::Validator;
use service_core::webstate::AppState;
use service_core::webstate::HttpResponse;
use service_core::webstate::MyObject;

fn user(id: u64, name: &str) -> User {
    User {
        id,
        name: name.to_string(),
        email: format!("{}@example.com", name),
        created_at: 1234567890,
    }
}

#[test]
fn test_fib() {
    assert_eq!(fib_iterative(50), 12586269025);
    assert_eq!(fib_recursive(50), 12586269025);
    assert_eq!(fib_iterative(10), 55);
    assert_eq!(fib_iterative(10), 55);
}

#[test]
fn fibonacci_small_values() {
    assert_eq!(fibonacci(0), 0);
    assert_eq!(fibonacci(1), 1);
    assert_eq!(fibonacci(10), 55);
    assert_eq!(fib_recursive(0), 0);
    assert_eq!(fib_recursive(1), 1);
}

#[test]
fn test_most_frequent() {
    let data = vec![1, 2, 2, 3, 3, 3, 4];
    assert_eq!(find_most_frequent(&data), 3);
}

#[test]
fn most_frequent_tie_takes_earliest() {
    assert_eq!(find_most_frequent(&[5, 7, 7, 5]), 5);
    assert_eq!(find_most_frequent(&[]), 0);
}

#[test]
fn test_filter_and_transform() {
    let data = vec![-1, 2, -3, 4, 5];
    let opt = filter_and_transform(&data);
    assert_eq!(opt, vec![4, 8, 10]);
}

#[test]
fn process_strings_labels_values() {
    let lines = process_strings(&[3, -14, 0]);
    assert_eq!(lines, vec!["Value: 3", "Value: -14", "Value: 0"]);
}

#[test]
fn decimal_print_and_parse() {
    assert_eq!(u64_to_text(0), "0");
    assert_eq!(u64_to_text(120034), "120034");
    assert_eq!(parse_u64("0"), Some(0));
    assert_eq!(parse_u64("18446744073709551615"), Some(u64::MAX));
    assert_eq!(parse_u64("18446744073709551616"), None);
    assert_eq!(parse_u64(""), None);
    assert_eq!(parse_u64("12a"), None);
    assert_eq!(parse_u64(" 5"), None);
    // printing and parsing are inverse
    assert_eq!(parse_u64(&u64_to_text(987654321)), Some(987654321));
}

#[test]
fn text_context_word_questions() {
    let text = "the quick brown fox jumps over the lazy dog";
    let ctx = TextContext::new(text);
    assert_eq!(ctx.get_content(), text);
    assert_eq!(ctx.count_words(), 9);
    assert_eq!(ctx.longest_word(), "jumps");
    assert_eq!(ctx.find_word("fox"), Some(3));
    assert_eq!(ctx.find_word("cat"), None);
    assert!(ctx.contains_word("lazy"));
    assert!(!ctx.contains_word("laz"));
    assert_eq!(ctx.count_word_occurrences("the"), 2);
    assert_eq!(ctx.count_word_occurrences("fox"), 1);
}

#[test]
fn text_context_edge_cases() {
    let empty = TextContext::new("");
    assert_eq!(empty.count_words(), 0);
    assert_eq!(empty.longest_word(), "");

    let spaced = TextContext::new("  a\t bb \n ccc  ");
    assert_eq!(spaced.count_words(), 3);
    assert_eq!(spaced.longest_word(), "ccc");
    assert_eq!(spaced.find_word("bb"), Some(1));

    // among equally long words the later one wins
    let tie = TextContext::new("aa bb");
    assert_eq!(tie.longest_word(), "bb");
}

#[test]
fn database_crud_round_trip() {
    let mut db = Database::new();
    db.create_user(user(1, "ada"));
    assert_eq!(db.user_count(), 1);
    assert_eq!(db.find_user(1).unwrap().name, "ada");
    assert!(db.find_user(2).is_none());

    let mut changed = user(1, "ada");
    changed.name = "ada l".to_string();
    assert!(db.update_user(changed).is_ok());
    assert_eq!(db.find_user(1).unwrap().name, "ada l");

    let missing = db.update_user(user(9, "ghost"));
    assert_eq!(missing, Err(ResourceError::NotFound));

    db.delete_user(1);
    assert!(db.find_user(1).is_none());
    db.delete_user(1);
    assert_eq!(db.user_count(), 0);
}

#[test]
fn simulated_query_and_execute() {
    let mut db = Database::new();
    db.create_user(user(1, "ada"));
    db.create_user(user(2, "brian"));
    let everyone = db.query("any statement at all");
    assert_eq!(everyone.len(), 2);
    assert_eq!(everyone[0].name, "ada");
    assert_eq!(everyone[1].name, "brian");
    assert_eq!(db.execute("any statement at all"), 1);
}

#[test]
fn database_batch_reports_each_verdict() {
    let mut db = Database::new();
    let verdicts = db.batch_operations(vec![
        DatabaseOperation::Create(user(1, "a")),
        DatabaseOperation::Update(user(2, "missing")),
        DatabaseOperation::Create(user(2, "b")),
        DatabaseOperation::Update(user(2, "b2")),
        DatabaseOperation::Delete(1),
    ]);
    assert_eq!(verdicts, vec![true, false, true, true, true]);
    assert_eq!(db.user_count(), 1);
    assert_eq!(db.find_user(2).unwrap().name, "b2");
}

#[test]
fn transaction_stops_at_first_failure() {
    let mut db = Database::new();
    let mut tx = Transaction::new();
    tx.add_operation(DatabaseOperation::Create(user(1, "kept")));
    tx.add_operation(DatabaseOperation::Update(user(7, "nobody")));
    tx.add_operation(DatabaseOperation::Create(user(2, "never")));
    assert_eq!(tx.operation_count(), 3);
    let outcome = tx.commit(&mut db);
    assert_eq!(outcome, Err(ResourceError::NotFound));
    // what ran before the failure stays applied; what followed never ran
    assert!(db.find_user(1).is_some());
    assert!(db.find_user(2).is_none());

    let mut good = Transaction::new();
    good.add_operation(DatabaseOperation::Create(user(3, "late")));
    assert!(good.commit(&mut db).is_ok());
    assert_eq!(db.user_count(), 2);
}

#[test]
fn test_counter() {
    let mut counter = Counter::new(3);
    assert_eq!(counter.next(), Some(1));
    assert_eq!(counter.next(), Some(2));
    assert_eq!(counter.next(), Some(3));
    assert_eq!(counter.next(), None);
}

#[test]
fn string_collection_indexing() {
    let mut coll = StringCollection::new();
    coll.push("alpha".to_string());
    coll.push("beta".to_string());
    assert_eq!(coll.len(), 2);
    assert_eq!(coll.get(0), Some("alpha".to_string()));
    assert_eq!(coll.get(1), Some("beta".to_string()));
    assert_eq!(coll.get(2), None);
}

#[test]
fn validator_and_processor() {
    let validator = Validator;
    assert!(validator.is_valid(0));
    assert!(validator.is_valid(100));
    assert!(!validator.is_valid(101));
    assert_eq!(IntProcessor.process(21), 42);
}

#[test]
fn person_record_and_copy() {
    let person = Person::new("Ada", 36, "ada@example.com");
    assert_eq!(person.name, "Ada");
    assert_eq!(person.age, 36);
    assert_eq!(person.email, "ada@example.com");
    let copy = person.duplicate();
    assert_eq!(copy.name, person.name);
    assert_eq!(copy.age, person.age);
}

#[test]
fn shared_registry_operations() {
    let mut registry: SharedRegistry<u32> = SharedRegistry::new();
    assert!(registry.is_empty());
    registry.add(10);
    registry.add(20);
    assert_eq!(registry.len(), 2);
    assert_eq!(registry.get(1), Some(&20));
    assert_eq!(registry.get(5), None);
    assert!(registry.set(0, 11));
    assert!(!registry.set(9, 99));
    assert_eq!(registry.get(0), Some(&11));
    registry.clear();
    assert!(registry.is_empty());
}

#[test]
fn app_state_crud() {
    let mut state = AppState::new();
    state.create_object(MyObject { id: 1, name: "one".to_string() });
    state.create_object(MyObject { id: 2, name: "two".to_string() });
    assert_eq!(state.len(), 2);
    assert_eq!(state.get_object(2).unwrap().name, "two");
    assert!(state.get_object(3).is_none());
    let all = state.get_all_objects();
    assert_eq!(all.len(), 2);
    assert_eq!(all[0].name, "one");
}

#[test]
fn http_response_success_class() {
    let ok = HttpResponse {
        url: "http://localhost/a".to_string(),
        status: 204,
        response_time_ms: 12,
        content_length: Some(0),
    };
    let missing = HttpResponse {
        url: "http://localhost/b".to_string(),
        status: 404,
        response_time_ms: 5,
        content_length: None,
    };
    assert!(ok.is_success());
    assert!(!missing.is_success());
}

#[test]
fn task_manager_lifecycle() {
    let mut manager = TaskManager::new();
    assert_eq!(manager.count(), 0);
    let first = manager.add_task(Task::new("write".to_string(), "the report".to_string(), 100));
    let second = manager.add_task(Task::new("rest".to_string(), "a while".to_string(), 101));
    assert_eq!(first, 1);
    assert_eq!(second, 2);
    assert_eq!(manager.count(), 2);

    assert!(manager.update_task_status(first, TodoStatus::Done, 200));
    assert!(!manager.update_task_status(99, TodoStatus::Done, 200));
    let viewed = manager.view_task(first).unwrap();
    assert_eq!(viewed.status, TodoStatus::Done);
    assert_eq!(viewed.updated_at, 200);
    assert_eq!(viewed.created_at, 100);

    let listing = manager.list_tasks();
    assert_eq!(listing.len(), 2);
    assert_eq!(listing[0].0, 1);
    assert_eq!(listing[1].0, 2);

    assert!(manager.delete_task(first));
    assert!(!manager.delete_task(first));
    assert_eq!(manager.count(), 1);
    assert!(manager.view_task(first).is_none());
}

#[test]
fn task_status_labels() {
    assert_eq!(TodoStatus::Todo.label(), "todo");
    assert_eq!(TodoStatus::InProgress.label(), "in progress");
    assert_eq!(TodoStatus::Done.label(), "done");
}

#[test]
fn cloneable_person() {
    fn copy_of<T: Cloneable>(value: &T) -> T {
        value.duplicate()
    }
    let person = Person::new("Grace", 45, "grace@example.com");
    let copy = copy_of(&person);
    assert_eq!(copy.email, "grace@example.com");
}
