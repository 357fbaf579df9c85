use nyat::reuse_port::find_inodes;

const TCP_TABLE: &str = "  sl  local_address rem_address   st tx_queue rx_queue tr tm->when retrnsmt   uid  timeout inode
   0: 00000000:0FE6 00000000:0000 0A 00000000:00000000 00:00000000 00000000     0        0 12345 1 0000000000000000 100 0 0 10 0
   1: 0100007F:0FE6 0100007F:9C40 01 00000000:00000000 00:00000000 00000000  1000        0 23456 1 0000000000000000 20 4 30 10 -1
   2: 00000000:1F90 00000000:0000 0A 00000000:00000000 00:00000000 00000000     0        0 34567 1 0000000000000000 100 0 0 10 0
";

#[test]
fn tcp_table_keeps_listening_sockets_on_port() {
    assert_eq!(find_inodes(TCP_TABLE.as_bytes(), 4070, true), vec![12345]);
    assert_eq!(find_inodes(TCP_TABLE.as_bytes(), 8080, true), vec![34567]);
    assert_eq!(find_inodes(TCP_TABLE.as_bytes(), 9999, true), Vec::<u64>::new());
}

#[test]
fn udp_table_keeps_any_bound_socket() {
    assert_eq!(find_inodes(TCP_TABLE.as_bytes(), 4070, false), vec![12345, 23456]);
}

#[test]
fn ipv6_table_and_zero_inode() {
    let table = "  sl  local_address                         remote_address                        st tx_queue rx_queue tr tm->when retrnsmt   uid  timeout inode
   0: 00000000000000000000000000000000:0FE6 00000000000000000000000000000000:0000 07 00000000:00000000 00:00000000 00000000     0        0 777 2 0000000000000000 0
   1: 00000000000000000000000000000000:0FE6 00000000000000000000000000000000:0000 07 00000000:00000000 00:00000000 00000000     0        0 0 2 0000000000000000 0";
    assert_eq!(find_inodes(table.as_bytes(), 4070, false), vec![777]);
}

#[test]
fn header_only_and_short_lines() {
    assert_eq!(find_inodes(b"", 4070, true), Vec::<u64>::new());
    assert_eq!(find_inodes(b"header only", 4070, true), Vec::<u64>::new());
    let table = "header\n   0: 00000000:0FE6 00000000:0000 0A\n\n   1: 00000000:0FE6 00000000:0000 0A 0 0 0 0 0 42\r\n";
    assert_eq!(find_inodes(table.as_bytes(), 4070, true), vec![42]);
}
