use invoicer::record::{Number, Racun, Service};
use invoicer::sample::{sample_invoice, SampleDate};
use invoicer::store::{
    conclude_delete, create_invoice, list_invoices, resolve_preview_image, LoadOutcome, Policy,
    Removal, RemovalAttempt, RootScan, ScannedEntry, ScannedFile, SkipReason, Store, StoreError,
};

fn record(number: i32) -> Racun {
    let date = SampleDate { day: 1, month: 1, year: 2020 };
    sample_invoice(number, date, date, date)
}

fn consulting(number: i32) -> Racun {
    let mut record = record(number);
    record.services = vec![Service {
        service_name: String::from("Consulting"),
        service_quantity: 1,
        service_price: Number { bits: 100.0f64.to_bits() },
        service_tax: Number { bits: 22.0f64.to_bits() },
    }];
    record
}

fn directory(name: &str, document: LoadOutcome) -> ScannedEntry {
    ScannedEntry {
        path: format!("invoices/{}", name),
        name: String::from(name),
        is_dir: true,
        document,
    }
}

fn plain_file(name: &str) -> ScannedEntry {
    ScannedEntry {
        path: format!("invoices/{}", name),
        name: String::from(name),
        is_dir: false,
        document: LoadOutcome::Unreadable,
    }
}

fn file(dir: &str, name: &str) -> ScannedFile {
    ScannedFile { path: format!("{}/{}", dir, name), name: String::from(name) }
}

fn numbers(store: &Store) -> Vec<i32> {
    store.entries.iter().map(|e| e.record.invoice_number).collect()
}

#[test]
fn lists_the_one_invoice_of_directory_seven() {
    let root = RootScan::Listed(vec![directory("7", LoadOutcome::Loaded(consulting(7)))]);
    let entries = list_invoices(root, Policy::Strict).unwrap().entries;
    assert_eq!(entries.len(), 1);
    assert_eq!(entries[0].record.invoice_number, 7);
    assert_eq!(entries[0].record.services.len(), 1);
    assert_eq!(entries[0].record.services[0].service_name, "Consulting");
    assert_eq!(f64::from_bits(entries[0].record.services[0].service_price.bits), 100.0);
    assert_eq!(f64::from_bits(entries[0].record.services[0].service_tax.bits), 22.0);
    assert_eq!(entries[0].path, "invoices/7");
    assert_eq!(entries[0].name, "7");
}

#[test]
fn listing_carries_every_field_over() {
    let root = RootScan::Listed(vec![directory("42", LoadOutcome::Loaded(record(42)))]);
    let entries = list_invoices(root, Policy::Lenient).unwrap().entries;
    let expected = record(42);
    let got = &entries[0].record;
    assert_eq!(got.invoice_number, expected.invoice_number);
    assert_eq!(got.invoice_date, expected.invoice_date);
    assert_eq!(got.service_date, expected.service_date);
    assert_eq!(got.due_date, expected.due_date);
    assert_eq!(got.invoice_currency, expected.invoice_currency);
    assert_eq!(got.invoice_tax, expected.invoice_tax);
    assert_eq!(got.invoice_reference, expected.invoice_reference);
    assert_eq!(got.created_by, expected.created_by);
    assert_eq!(got.invoice_location, expected.invoice_location);
    assert_eq!(got.status, expected.status);
    assert_eq!(got.font_sizes, expected.font_sizes);
    assert_eq!(got.partner.partner_name, expected.partner.partner_name);
    assert_eq!(got.partner.partner_vat_id, expected.partner.partner_vat_id);
    assert_eq!(got.company.company_name, expected.company.company_name);
    assert_eq!(got.company.company_iban, expected.company.company_iban);
    assert_eq!(got.company.company_vat_rate, expected.company.company_vat_rate);
    assert_eq!(got.services.len(), expected.services.len());
}

#[test]
fn lenient_listing_keeps_the_valid_invoice() {
    let root = RootScan::Listed(vec![
        directory("1", LoadOutcome::Malformed),
        directory("2", LoadOutcome::Loaded(record(2))),
    ]);
    let entries = list_invoices(root, Policy::Lenient).unwrap().entries;
    assert_eq!(entries.len(), 1);
    assert_eq!(entries[0].record.invoice_number, 2);
    assert_eq!(entries[0].name, "2");
}

#[test]
fn strict_listing_fails_on_a_corrupt_invoice() {
    let root = RootScan::Listed(vec![
        directory("2", LoadOutcome::Loaded(record(2))),
        directory("1", LoadOutcome::Malformed),
        directory("3", LoadOutcome::Malformed),
    ]);
    match list_invoices(root, Policy::Strict) {
        Err(StoreError::MalformedRecord { path }) => assert_eq!(path, "invoices/1"),
        other => panic!("{:?}", other),
    }
}

#[test]
fn strict_listing_of_valid_directories_succeeds() {
    let root = RootScan::Listed(vec![
        directory("2", LoadOutcome::Loaded(record(2))),
        directory("5", LoadOutcome::Unreadable),
        directory("3", LoadOutcome::Loaded(record(3))),
    ]);
    let entries = list_invoices(root, Policy::Strict).unwrap().entries;
    assert_eq!(entries.len(), 2);
    assert_eq!(entries[0].record.invoice_number, 2);
    assert_eq!(entries[1].record.invoice_number, 3);
}

#[test]
fn unreadable_root_fails_the_listing() {
    assert!(matches!(
        list_invoices(RootScan::Unreadable, Policy::Lenient),
        Err(StoreError::DirectoryUnreadable)
    ));
    assert!(matches!(
        list_invoices(RootScan::Unreadable, Policy::Strict),
        Err(StoreError::DirectoryUnreadable)
    ));
}

#[test]
fn empty_root_lists_nothing() {
    let listing = list_invoices(RootScan::Listed(vec![]), Policy::Strict).unwrap();
    assert_eq!(listing.entries.len(), 0);
    assert_eq!(listing.skipped.len(), 0);
}

#[test]
fn files_in_the_root_are_skipped() {
    let mut stray = plain_file("notes.txt");
    stray.document = LoadOutcome::Malformed;
    let mut loaded_file = plain_file("9");
    loaded_file.document = LoadOutcome::Loaded(record(9));
    let root = RootScan::Listed(vec![
        stray,
        loaded_file,
        directory("4", LoadOutcome::Loaded(record(4))),
    ]);
    let entries = list_invoices(root, Policy::Strict).unwrap().entries;
    assert_eq!(entries.len(), 1);
    assert_eq!(entries[0].record.invoice_number, 4);
}

#[test]
fn listing_keeps_the_order_of_the_scan() {
    let root = RootScan::Listed(vec![
        directory("30", LoadOutcome::Loaded(record(30))),
        directory("10", LoadOutcome::Loaded(record(10))),
        directory("x", LoadOutcome::Unreadable),
        directory("20", LoadOutcome::Loaded(record(20))),
    ]);
    let mut store = Store::new(Policy::Lenient);
    assert!(store.refresh(root).is_ok());
    assert_eq!(numbers(&store), vec![30, 10, 20]);
}

#[test]
fn failed_refresh_keeps_the_list() {
    let mut store = Store::new(Policy::Strict);
    assert_eq!(store.entries.len(), 0);
    let good = RootScan::Listed(vec![directory("1", LoadOutcome::Loaded(record(1)))]);
    assert!(store.refresh(good).is_ok());
    assert_eq!(numbers(&store), vec![1]);
    let bad = RootScan::Listed(vec![
        directory("2", LoadOutcome::Loaded(record(2))),
        directory("3", LoadOutcome::Malformed),
    ]);
    assert!(matches!(store.refresh(bad), Err(StoreError::MalformedRecord { .. })));
    assert_eq!(numbers(&store), vec![1]);
    assert!(matches!(store.refresh(RootScan::Unreadable), Err(StoreError::DirectoryUnreadable)));
    assert_eq!(numbers(&store), vec![1]);
    assert_eq!(store.policy, Policy::Strict);
}

#[test]
fn no_image_resolves_to_none() {
    let files = vec![file("invoices/7", "output.json"), file("invoices/7", "7.pdf")];
    assert_eq!(resolve_preview_image(&files), None);
    assert_eq!(resolve_preview_image(&vec![]), None);
}

#[test]
fn the_one_jpg_is_the_preview() {
    let files = vec![
        file("invoices/7", "output.json"),
        file("invoices/7", "7.jpg"),
        file("invoices/7", "7.pdf"),
    ];
    assert_eq!(resolve_preview_image(&files), Some(String::from("invoices/7/7.jpg")));
}

#[test]
fn the_first_of_two_images_is_the_preview() {
    let files = vec![
        file("d", ".jpg"),
        file("d", "b.jpg"),
        file("d", "a.jpg"),
    ];
    assert_eq!(resolve_preview_image(&files), Some(String::from("d/b.jpg")));
}

#[test]
fn delete_targets_the_directory_of_that_number() {
    let root = RootScan::Listed(vec![
        directory("21", LoadOutcome::Loaded(record(21))),
        directory("1", LoadOutcome::Loaded(record(1))),
        directory("100001", LoadOutcome::Loaded(record(100001))),
    ]);
    let mut store = Store::new(Policy::Lenient);
    store.refresh(root).unwrap();
    assert_eq!(store.delete_invoice(1), vec![String::from("invoices/1")]);
    assert_eq!(store.delete_invoice(21), vec![String::from("invoices/21")]);
    assert_eq!(store.delete_invoice(100001), vec![String::from("invoices/100001")]);
    assert_eq!(store.delete_invoice(2), Vec::<String>::new());
    assert_eq!(store.delete_invoice(0), Vec::<String>::new());
    assert_eq!(numbers(&store), vec![21, 1, 100001]);
}

#[test]
fn delete_goes_by_the_directory_name() {
    let root = RootScan::Listed(vec![directory("8", LoadOutcome::Loaded(record(7)))]);
    let mut store = Store::new(Policy::Lenient);
    store.refresh(root).unwrap();
    assert_eq!(store.delete_invoice(7), Vec::<String>::new());
    assert_eq!(store.delete_invoice(8), vec![String::from("invoices/8")]);
}

#[test]
fn deleted_invoice_is_gone_from_the_next_listing() {
    let mut store = Store::new(Policy::Strict);
    store
        .refresh(RootScan::Listed(vec![
            directory("7", LoadOutcome::Loaded(consulting(7))),
            directory("8", LoadOutcome::Loaded(record(8))),
        ]))
        .unwrap();
    let paths = store.delete_invoice(7);
    assert_eq!(paths, vec![String::from("invoices/7")]);
    let attempts: Vec<RemovalAttempt> =
        paths.into_iter().map(|path| RemovalAttempt { path, removal: Removal::Removed }).collect();
    assert!(conclude_delete(&attempts).is_ok());
    assert_eq!(numbers(&store), vec![7, 8]);
    store
        .refresh(RootScan::Listed(vec![directory("8", LoadOutcome::Loaded(record(8)))]))
        .unwrap();
    assert_eq!(numbers(&store), vec![8]);
    assert_eq!(store.delete_invoice(7), Vec::<String>::new());
}

#[test]
fn deleting_twice_succeeds_twice() {
    let mut store = Store::new(Policy::Lenient);
    store.refresh(RootScan::Listed(vec![directory("7", LoadOutcome::Loaded(record(7)))])).unwrap();
    let first: Vec<RemovalAttempt> = store
        .delete_invoice(7)
        .into_iter()
        .map(|path| RemovalAttempt { path, removal: Removal::Removed })
        .collect();
    assert_eq!(first.len(), 1);
    assert!(conclude_delete(&first).is_ok());
    let second: Vec<RemovalAttempt> = store
        .delete_invoice(7)
        .into_iter()
        .map(|path| RemovalAttempt { path, removal: Removal::Missing })
        .collect();
    assert_eq!(second.len(), 1);
    assert!(conclude_delete(&second).is_ok());
    store.refresh(RootScan::Listed(vec![])).unwrap();
    let third: Vec<RemovalAttempt> = store
        .delete_invoice(7)
        .into_iter()
        .map(|path| RemovalAttempt { path, removal: Removal::Missing })
        .collect();
    assert_eq!(third.len(), 0);
    assert!(conclude_delete(&third).is_ok());
}

#[test]
fn a_directory_that_stays_fails_the_deletion() {
    let attempts = vec![
        RemovalAttempt { path: String::from("invoices/1"), removal: Removal::Removed },
        RemovalAttempt { path: String::from("invoices/2"), removal: Removal::Failed },
        RemovalAttempt { path: String::from("invoices/3"), removal: Removal::Failed },
    ];
    match conclude_delete(&attempts) {
        Err(StoreError::RemovalFailed { path }) => assert_eq!(path, "invoices/2"),
        other => panic!("{:?}", other),
    }
}

#[test]
fn creation_takes_a_free_name() {
    let existing = vec![String::from("21"), String::from("100001"), String::from("notes")];
    assert_eq!(create_invoice(&existing, &record(1)).unwrap(), "1");
    assert_eq!(create_invoice(&vec![], &record(-3)).unwrap(), "-3");
}

#[test]
fn creation_refuses_a_taken_name() {
    let existing = vec![String::from("21"), String::from("1")];
    match create_invoice(&existing, &record(1)) {
        Err(StoreError::CreationConflict { name }) => assert_eq!(name, "1"),
        other => panic!("{:?}", other),
    }
    match create_invoice(&existing, &record(21)) {
        Err(StoreError::CreationConflict { name }) => assert_eq!(name, "21"),
        other => panic!("{:?}", other),
    }
}

#[test]
fn skipped_directories_are_noted_in_scan_order() {
    let root = RootScan::Listed(vec![
        directory("5", LoadOutcome::Unreadable),
        plain_file("notes.txt"),
        directory("2", LoadOutcome::Loaded(record(2))),
        directory("1", LoadOutcome::Malformed),
    ]);
    let listing = list_invoices(root, Policy::Lenient).unwrap();
    assert_eq!(listing.entries.len(), 1);
    assert_eq!(listing.skipped.len(), 2);
    assert_eq!(listing.skipped[0].path, "invoices/5");
    assert_eq!(listing.skipped[0].reason, SkipReason::EntryUnreadable);
    assert_eq!(listing.skipped[1].path, "invoices/1");
    assert_eq!(listing.skipped[1].reason, SkipReason::MalformedRecord);
}

#[test]
fn strict_listing_notes_unreadable_directories() {
    let root = RootScan::Listed(vec![
        directory("5", LoadOutcome::Unreadable),
        directory("2", LoadOutcome::Loaded(record(2))),
    ]);
    let listing = list_invoices(root, Policy::Strict).unwrap();
    assert_eq!(listing.entries.len(), 1);
    assert_eq!(listing.skipped.len(), 1);
    assert_eq!(listing.skipped[0].path, "invoices/5");
    assert_eq!(listing.skipped[0].reason, SkipReason::EntryUnreadable);
}

#[test]
fn refresh_hands_the_notes_on() {
    let mut store = Store::new(Policy::Lenient);
    let notes = store
        .refresh(RootScan::Listed(vec![
            directory("3", LoadOutcome::Malformed),
            directory("4", LoadOutcome::Loaded(record(4))),
        ]))
        .unwrap();
    assert_eq!(notes.len(), 1);
    assert_eq!(notes[0].path, "invoices/3");
    assert_eq!(notes[0].reason, SkipReason::MalformedRecord);
    assert_eq!(numbers(&store), vec![4]);
}
