use nixinfo::{
    memory, memory_available, memory_formatter, memory_free, memory_total, memory_used,
    memory_used_kb, Error,
};

const MEMINFO: &str = "MemTotal:       16384000 kB\n\
MemFree:         1024000 kB\n\
MemAvailable:    8192000 kB\n\
Buffers:          204800 kB\n\
Cached:          4096000 kB\n";

#[test]
fn end_to_end_total_and_used() {
    assert_eq!(memory_total(MEMINFO), Ok("16000 MB".to_string()));
    assert_eq!(memory_used(MEMINFO), Ok("8000 MB".to_string()));
    assert_eq!(memory_used_kb(MEMINFO), Ok(16384000 - 8192000));
}

#[test]
fn free_and_available_are_shown_in_megabytes() {
    assert_eq!(memory_free(MEMINFO), Ok("1000 MB".to_string()));
    assert_eq!(memory_available(MEMINFO), Ok("8000 MB".to_string()));
}

#[test]
fn total_divides_by_1024_and_rounds_down() {
    let table = "MemTotal:        8388607 kB\nMemAvailable: 1 kB\n";
    assert_eq!(memory_total(table), Ok("8191 MB".to_string()));
    assert_eq!(memory_total("MemTotal: 1023 kB\n"), Ok("0 MB".to_string()));
    assert_eq!(memory_total("MemTotal: 2048 kB\n"), Ok("2 MB".to_string()));
}

#[test]
fn formatter_exact_values() {
    assert_eq!(memory_formatter(0), "0 MB");
    assert_eq!(memory_formatter(8388608), "8192 MB");
    assert_eq!(memory_formatter(u64::MAX), "18014398509481983 MB");
}

#[test]
fn used_is_total_less_available() {
    let table = "MemTotal: 5000 kB\nMemFree: 100 kB\nMemAvailable: 1200 kB\n";
    assert_eq!(memory_used_kb(table), Ok(3800));
    assert_eq!(memory_used(table), Ok("3 MB".to_string()));
}

#[test]
fn used_is_zero_when_available_exceeds_total() {
    let table = "MemTotal: 1000 kB\nMemAvailable: 4000 kB\n";
    assert_eq!(memory_used_kb(table), Ok(0));
}

#[test]
fn used_reports_the_first_failing_lookup() {
    assert_eq!(memory_used("MemAvailable: 1 kB\n"), Err(Error::NotFound));
    assert_eq!(memory_used("MemTotal: 10 kB\n"), Err(Error::NotFound));
    assert_eq!(
        memory_used("MemTotal: x kB\nMemAvailable: y kB\n"),
        Err(Error::MalformedValue)
    );
    assert_eq!(memory_used("MemTotal: 10 kB\nMemAvailable: y kB\n"), Err(Error::MalformedValue));
}

#[test]
fn missing_label_is_not_found() {
    assert_eq!(memory("NoSuchField", MEMINFO), Err(Error::NotFound));
    assert_eq!(memory("MemTotal", ""), Err(Error::NotFound));
    assert_eq!(memory_total("MemFree: 1 kB\n"), Err(Error::NotFound));
}

#[test]
fn unparsable_value_is_malformed() {
    assert_eq!(memory("MemTotal", "MemTotal: lots kB\n"), Err(Error::MalformedValue));
    assert_eq!(memory("MemTotal", "MemTotal:\n"), Err(Error::MalformedValue));
    assert_eq!(memory("MemTotal", "MemTotal: -5 kB\n"), Err(Error::MalformedValue));
    assert_eq!(memory("MemTotal", "MemTotal: 1 2 kB\n"), Err(Error::MalformedValue));
}

#[test]
fn largest_value_and_overflow() {
    assert_eq!(memory("MemTotal", "MemTotal: 18446744073709551615 kB\n"), Ok(u64::MAX));
    assert_eq!(
        memory("MemTotal", "MemTotal: 18446744073709551616 kB\n"),
        Err(Error::MalformedValue)
    );
}

#[test]
fn value_without_unit_or_with_plus() {
    assert_eq!(memory("HugePages_Total", "HugePages_Total:       0\n"), Ok(0));
    assert_eq!(memory("MemTotal", "MemTotal: +42 kB"), Ok(42));
}

#[test]
fn first_line_with_the_label_as_prefix_wins() {
    let table = "MemTotalX: 5 kB\nMemTotal: 7 kB\n";
    assert_eq!(memory("MemTotal", table), Ok(5));
    assert_eq!(memory("MemTotal:", table), Ok(7));
}

#[test]
fn value_is_after_the_last_colon() {
    assert_eq!(memory("Odd", "Odd: 3: 9 kB\n"), Ok(9));
}

#[test]
fn formatted_table_reads_back() {
    let values: [(&str, u64); 5] = [
        ("MemTotal", 32768000),
        ("MemFree", 0),
        ("MemAvailable", 12345678),
        ("SwapTotal", u64::MAX),
        ("Dirty", 7),
    ];
    let mut table = String::new();
    for (i, (label, kb)) in values.iter().enumerate() {
        let pad = " ".repeat(i * 3);
        table.push_str(&format!("{}:{}{} kB\n", label, pad, kb));
    }
    for (label, kb) in values.iter() {
        assert_eq!(memory(label, &table), Ok(*kb));
    }
}
