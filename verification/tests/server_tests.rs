use my_turn::server::Server;

#[test]
fn server_counts_sessions() {
    let mut server: Server<u32> = Server::new();
    assert_eq!(server.connect(), 1);
    assert_eq!(server.connect(), 2);
    server.disconnect(1);
    assert_eq!(server.connect(), 3);
}

#[test]
fn server_kth_connect_gets_k() {
    let mut server: Server<u32> = Server::new();
    for k in 1..=10usize {
        server.disconnect(k);
        assert_eq!(server.connect(), k);
        assert_eq!(server.last_session_id(), k);
    }
}
