use builder_jobs::config::{tcp_addr, Config, JobSrvAddr};

#[test]
fn default_job_server() {
    let a = JobSrvAddr::default();
    assert_eq!(a.host, "127.0.0.1");
    assert_eq!(a.port, 5566);
    assert_eq!(a.heartbeat, 5567);
    assert_eq!(a.log_port, 5569);
}

#[test]
fn default_config() {
    let c = Config::default();
    assert_eq!(c.auth_token, "");
    assert_eq!(c.data_path, "/tmp");
    assert_eq!(c.jobsrv.len(), 1);
    assert_eq!(c.jobsrv[0].host, "127.0.0.1");
    assert_eq!(c.jobsrv[0].port, 5566);
}

#[test]
fn default_config_endpoints() {
    let addrs = Config::default().jobsrv_addrs();
    assert_eq!(
        addrs,
        vec![(
            "tcp://127.0.0.1:5567".to_string(),
            "tcp://127.0.0.1:5566".to_string(),
            "tcp://127.0.0.1:5569".to_string()
        )]
    );
}

#[test]
fn endpoints_follow_server_order() {
    let c = Config {
        auth_token: "mytoken".to_string(),
        data_path: "/path/to/data".to_string(),
        jobsrv: vec![
            JobSrvAddr { host: "1:1:1:1:1:1:1:1".to_string(), port: 9000, heartbeat: 9001, log_port: 5569 },
            JobSrvAddr { host: "2.2.2.2".to_string(), port: 9000, heartbeat: 5567, log_port: 0 },
        ],
    };
    let addrs = c.jobsrv_addrs();
    assert_eq!(addrs.len(), 2);
    assert_eq!(addrs[0].0, "tcp://1:1:1:1:1:1:1:1:9001");
    assert_eq!(addrs[0].1, "tcp://1:1:1:1:1:1:1:1:9000");
    assert_eq!(addrs[0].2, "tcp://1:1:1:1:1:1:1:1:5569");
    assert_eq!(addrs[1].0, "tcp://2.2.2.2:5567");
    assert_eq!(addrs[1].1, "tcp://2.2.2.2:9000");
    assert_eq!(addrs[1].2, "tcp://2.2.2.2:0");
}

#[test]
fn no_servers_no_endpoints() {
    let c = Config { auth_token: String::new(), data_path: String::new(), jobsrv: vec![] };
    assert!(c.jobsrv_addrs().is_empty());
}

#[test]
fn port_digits() {
    let h = "10.0.0.1".to_string();
    assert_eq!(tcp_addr(&h, 0), "tcp://10.0.0.1:0");
    assert_eq!(tcp_addr(&h, 9), "tcp://10.0.0.1:9");
    assert_eq!(tcp_addr(&h, 10), "tcp://10.0.0.1:10");
    assert_eq!(tcp_addr(&h, 65535), "tcp://10.0.0.1:65535");
    assert_eq!(tcp_addr(&h, u16::MAX - 1), format!("tcp://10.0.0.1:{}", u16::MAX - 1));
}
