//! C text of the socket, file and process runtime, emitted after user code.

use vstd::prelude::*;

verus! {

/// TCP sockets, HTTP request splitting and pipes.
pub const TCP_SOCKETS: &'static str = r#"/* ---- TCP socket runtime ---- */
#ifndef _WIN32
#include <sys/syscall.h>
#endif
#ifndef _WIN32
#if defined(__APPLE__) || defined(__FreeBSD__) || defined(__NetBSD__) || defined(__OpenBSD__) || defined(__DragonFly__)
#include <sys/types.h>
#include <sys/socket.h>
#include <netinet/in.h>
#include <netinet/tcp.h>
#include <arpa/inet.h>
#include <sys/un.h>
typedef socklen_t __maka_socklen_t;
#define __MAKA_SA_LEN_INIT(sa) ((sa).sin_len = sizeof(sa))
#else
typedef unsigned int __maka_socklen_t;
struct sockaddr_in { unsigned short sin_family; unsigned short sin_port; struct { unsigned int s_addr; } sin_addr; unsigned char sin_zero[8]; };
struct sockaddr { unsigned short sa_family; char sa_data[14]; };
extern int socket(int, int, int);
extern int bind  (int, const struct sockaddr*, __maka_socklen_t);
extern int listen(int, int);
extern int connect(int, const struct sockaddr*, __maka_socklen_t);
extern int setsockopt(int, int, int, const void*, __maka_socklen_t);
extern int getsockopt(int, int, int, void*, __maka_socklen_t*);
extern long sendto(int, const void*, unsigned long, int, const struct sockaddr*, __maka_socklen_t);
extern long recvfrom(int, void*, unsigned long, int, struct sockaddr*, __maka_socklen_t*);
#define __MAKA_SA_LEN_INIT(sa) ((void)0)
#endif
extern unsigned short htons(unsigned short);
extern unsigned int   htonl(unsigned int);
extern unsigned short ntohs(unsigned short);
extern unsigned int   ntohl(unsigned int);
#else
typedef int __maka_socklen_t;
#define __MAKA_SA_LEN_INIT(sa) ((void)0)
#endif
#ifndef AF_INET
#define __MAKA_AF_INET     2
#else
#define __MAKA_AF_INET     AF_INET
#endif
#ifndef SOCK_STREAM
#define __MAKA_SOCK_STREAM 1
#else
#define __MAKA_SOCK_STREAM SOCK_STREAM
#endif
#ifndef INADDR_ANY
#define __MAKA_INADDR_ANY  0u
#else
#define __MAKA_INADDR_ANY  INADDR_ANY
#endif
#ifndef SOL_SOCKET
#define __MAKA_SOL_SOCKET  1
#else
#define __MAKA_SOL_SOCKET  SOL_SOCKET
#endif
#ifndef SO_REUSEADDR
#define __MAKA_SO_REUSEADDR 2
#else
#define __MAKA_SO_REUSEADDR SO_REUSEADDR
#endif
#ifndef SO_ERROR
#define __MAKA_SO_ERROR    4
#else
#define __MAKA_SO_ERROR    SO_ERROR
#endif
static inline int64_t __maka_tcp_listen(int64_t port, int64_t backlog) {
    int s = socket(__MAKA_AF_INET, __MAKA_SOCK_STREAM, 0);
    if (s < 0) return -1;
    int one = 1;
    setsockopt(s, __MAKA_SOL_SOCKET, __MAKA_SO_REUSEADDR, &one, sizeof(one));
    struct sockaddr_in sa; memset(&sa, 0, sizeof(sa)); __MAKA_SA_LEN_INIT(sa);
    sa.sin_family = __MAKA_AF_INET;
    sa.sin_addr.s_addr = htonl(__MAKA_INADDR_ANY);   /* 0.0.0.0 */
    sa.sin_port = htons((unsigned short)port);
    if (bind(s, (struct sockaddr*)&sa, sizeof(sa)) != 0) { close(s); return -1; }
    if (listen(s, (int)backlog) != 0) { close(s); return -1; }
    int flags = fcntl(s, F_GETFL, 0);
    fcntl(s, F_SETFL, flags | O_NONBLOCK);
    return s;
}
static inline int64_t __maka_tcp_listen_any(int64_t port, int64_t backlog) {
    int s = socket(__MAKA_AF_INET, __MAKA_SOCK_STREAM, 0);
    if (s < 0) return -1;
    int one = 1;
    setsockopt(s, __MAKA_SOL_SOCKET, __MAKA_SO_REUSEADDR, &one, sizeof(one));
    struct sockaddr_in sa; memset(&sa, 0, sizeof(sa)); __MAKA_SA_LEN_INIT(sa);
    sa.sin_family = __MAKA_AF_INET;
    sa.sin_addr.s_addr = htonl(__MAKA_INADDR_ANY);
    sa.sin_port = htons((unsigned short)port);
    if (bind(s, (struct sockaddr*)&sa, sizeof(sa)) != 0) { close(s); return -1; }
    if (listen(s, (int)backlog) != 0) { close(s); return -1; }
    int flags = fcntl(s, F_GETFL, 0);
    fcntl(s, F_SETFL, flags | O_NONBLOCK);
    return s;
}
static inline int64_t __maka_tcp_accept_async(int64_t listen_fd) {
    while (1) {
#ifdef _WIN32
        int c = (int)accept((int)listen_fd, NULL, NULL);
#elif defined(__linux__)
        int c = (int)syscall(SYS_accept, (int)listen_fd, (void*)0, (void*)0);
#else
        int c = accept((int)listen_fd, NULL, NULL);
#endif
        if (c >= 0) {
            int flags = fcntl(c, F_GETFL, 0);
            fcntl(c, F_SETFL, flags | O_NONBLOCK);
            return c;
        }
        if (errno == EAGAIN || errno == EWOULDBLOCK) {
            __maka_wait_fd(listen_fd, MAKA_EV_READ); continue;
        }
        if (errno == EINTR) continue;
        return -1;
    }
}
static inline int64_t __maka_tcp_connect_v4(int64_t a, int64_t b, int64_t c, int64_t d, int64_t port) {
    int s = socket(__MAKA_AF_INET, __MAKA_SOCK_STREAM, 0);
    if (s < 0) return -1;
    int flags = fcntl(s, F_GETFL, 0);
    fcntl(s, F_SETFL, flags | O_NONBLOCK);
    struct sockaddr_in sa; memset(&sa, 0, sizeof(sa)); __MAKA_SA_LEN_INIT(sa);
    sa.sin_family = __MAKA_AF_INET;
    sa.sin_port = htons((unsigned short)port);
    unsigned char octets[4] = {(unsigned char)a, (unsigned char)b, (unsigned char)c, (unsigned char)d};
    memcpy(&sa.sin_addr.s_addr, octets, 4);
    int r = connect(s, (struct sockaddr*)&sa, sizeof(sa));
    if (r == 0) return s;
    if (errno == EINPROGRESS) {
        __maka_wait_fd(s, MAKA_EV_WRITE);
        int err = 0; __maka_socklen_t elen = sizeof(err);
        getsockopt(s, __MAKA_SOL_SOCKET, __MAKA_SO_ERROR, &err, &elen);
        if (err == 0) return s;
        close(s); return -1;
    }
    close(s); return -1;
}
static inline int64_t __maka_close_fd(int64_t fd) {
    if (maka_sched_inited) {
        maka_fiber_t** prev = &maka_fd_waiters;
        while (*prev) {
            maka_fiber_t* w = *prev;
            if (w->waiting_fd == (int)fd) {
                *prev = w->next; w->next = NULL;
                w->waiting_fd = -1; w->waiting_events = 0;
                w->wait_deadline_ns = 0; w->wait_timed_out = 0;
                __maka_ready_enqueue(w);
            } else {
                prev = &(*prev)->next;
            }
        }
    }
    pthread_mutex_lock(&__maka_ticks_mu);
    for (maka_sched_tick_t* tk = __maka_ticks_head; tk; tk = tk->next) {
        maka_sched_state_t* o = tk->owner;
        if (!o || o == maka_sched_state) continue;
        maka_close_req_t* cr = (maka_close_req_t*)malloc(sizeof(maka_close_req_t));
        cr->closed_fd = (int)fd;
        pthread_mutex_lock(&o->remote_mu);
        cr->next = o->remote_close_head;
        o->remote_close_head = cr;
        int wfd = o->wake_pipe_w;
        pthread_mutex_unlock(&o->remote_mu);
        if (wfd > 0) { char b = 1; (void)send((int)wfd, &b, 1, 0); }
    }
    pthread_mutex_unlock(&__maka_ticks_mu);
    __maka_fd_arm((int)fd, 0);
    __maka_fd_reg_drop((int)fd);
    return close((int)fd);
}
static __thread int __maka_http_method_off = -1;
static __thread int __maka_http_method_len = 0;
static __thread int __maka_http_path_off = -1;
static __thread int __maka_http_path_len = 0;
static __thread int __maka_http_body_off = -1;
static __thread int __maka_http_content_length = -1;
static inline int64_t __maka_http_parse(const char* buf, int64_t len) {
    __maka_http_method_off = -1; __maka_http_method_len = 0;
    __maka_http_path_off   = -1; __maka_http_path_len = 0;
    __maka_http_body_off   = -1; __maka_http_content_length = -1;
    if (len < 4) return -1;
    int i = 0;
    __maka_http_method_off = 0;
    while (i < len && buf[i] != ' ') i++;
    if (i >= len) return -1;
    __maka_http_method_len = i;
    i++;
    __maka_http_path_off = i;
    while (i < len && buf[i] != ' ') i++;
    if (i >= len) return -1;
    __maka_http_path_len = i - __maka_http_path_off;
    while (i < len && buf[i] != '\n') i++;
    if (i >= len) return -1;
    i++;
    while (i < len) {
        if (buf[i] == '\r' || buf[i] == '\n') {
            int j = i; if (buf[j] == '\r' && j + 1 < len && buf[j+1] == '\n') j += 2; else j++;
            __maka_http_body_off = j;
            return 0;
        }
        if (i + 15 < len) {
            const char* cl = "Content-Length:";
            int match = 1;
            for (int k = 0; k < 15; k++) {
                char a = buf[i + k]; char b = cl[k];
                if (a >= 'A' && a <= 'Z') a += 32;
                if (b >= 'A' && b <= 'Z') b += 32;
                if (a != b) { match = 0; break; }
            }
            if (match) {
                int p = i + 15;
                while (p < len && (buf[p] == ' ' || buf[p] == '\t')) p++;
                int v = 0;
                while (p < len && buf[p] >= '0' && buf[p] <= '9') { v = v * 10 + (buf[p] - '0'); p++; }
                __maka_http_content_length = v;
            }
        }
        while (i < len && buf[i] != '\n') i++;
        if (i < len) i++;
    }
    return -1;  /* headers incomplete */
}
static inline int64_t __maka_http_method_off_g(void) { return __maka_http_method_off; }
static inline int64_t __maka_http_method_len_g(void) { return __maka_http_method_len; }
static inline int64_t __maka_http_path_off_g  (void) { return __maka_http_path_off; }
static inline int64_t __maka_http_path_len_g  (void) { return __maka_http_path_len; }
static inline int64_t __maka_http_body_off_g  (void) { return __maka_http_body_off; }
static inline int64_t __maka_http_content_length_g(void) { return __maka_http_content_length; }
#if !defined(_WIN32) && !defined(__APPLE__) && !defined(__FreeBSD__) && !defined(__NetBSD__) && !defined(__OpenBSD__) && !defined(__DragonFly__)
extern int pipe(int*);
#endif
static __thread int __maka_last_pipe_wfd = -1;
static inline int64_t __maka_pipe_create(void) {
    int fds[2];
    if (pipe(fds) != 0) return -1;
    int f0 = fcntl(fds[0], F_GETFL, 0); fcntl(fds[0], F_SETFL, f0 | O_NONBLOCK);
    int f1 = fcntl(fds[1], F_GETFL, 0); fcntl(fds[1], F_SETFL, f1 | O_NONBLOCK);
    __maka_last_pipe_wfd = fds[1];
    return fds[0];
}
static inline int64_t __maka_pipe_write_fd(void) { return __maka_last_pipe_wfd; }
"#;

/// TLS sessions, or stubs when the program is built without them.
pub const TLS: &'static str = r#"#ifdef MAKA_TLS
#include <openssl/ssl.h>
#include <openssl/err.h>
static _Atomic int __maka_tls_inited = 0;
static SSL_CTX* __maka_tls_ctx = NULL;
static void __maka_tls_init_once(void) {
    int e = 0;
    if (!atomic_compare_exchange_strong(&__maka_tls_inited, &e, 1)) return;
    SSL_library_init();
    SSL_load_error_strings();
    OpenSSL_add_all_algorithms();
    __maka_tls_ctx = SSL_CTX_new(TLS_client_method());
    if (__maka_tls_ctx) SSL_CTX_set_default_verify_paths(__maka_tls_ctx);
}
static SSL_CTX* __maka_tls_server_ctx = NULL;
static inline int64_t __maka_tls_server_init(const char* cert_pem, const char* key_pem) {
    __maka_tls_init_once();
    if (__maka_tls_server_ctx) SSL_CTX_free(__maka_tls_server_ctx);
    __maka_tls_server_ctx = SSL_CTX_new(TLS_server_method());
    if (!__maka_tls_server_ctx) return -1;
    if (SSL_CTX_use_certificate_file(__maka_tls_server_ctx, cert_pem, SSL_FILETYPE_PEM) <= 0) return -1;
    if (SSL_CTX_use_PrivateKey_file (__maka_tls_server_ctx, key_pem, SSL_FILETYPE_PEM) <= 0) return -1;
    return 0;
}
static inline maka_unit* __maka_tls_server_accept_new(int64_t fd) {
    if (!__maka_tls_server_ctx) return NULL;
    SSL* s = SSL_new(__maka_tls_server_ctx);
    if (!s) return NULL;
    SSL_set_fd(s, (int)fd);
    while (1) {
        int r = SSL_accept(s);
        if (r == 1) return (maka_unit*)s;
        int e = SSL_get_error(s, r);
        int sfd = SSL_get_fd(s);
        if (e == SSL_ERROR_WANT_READ)  { __maka_wait_fd(sfd, MAKA_EV_READ); continue; }
        if (e == SSL_ERROR_WANT_WRITE) { __maka_wait_fd(sfd, MAKA_EV_WRITE); continue; }
        SSL_free(s); return NULL;
    }
}
static inline maka_unit* __maka_tls_client_new(int64_t fd, const char* hostname) {
    __maka_tls_init_once();
    if (!__maka_tls_ctx) return NULL;
    SSL* s = SSL_new(__maka_tls_ctx);
    if (!s) return NULL;
    SSL_set_fd(s, (int)fd);
    SSL_set_tlsext_host_name(s, hostname);
    return (maka_unit*)s;
}
static inline int64_t __maka_tls_handshake(maka_unit* p) {
    SSL* s = (SSL*)p;
    while (1) {
        int r = SSL_connect(s);
        if (r == 1) return 0;
        int e = SSL_get_error(s, r);
        int fd = SSL_get_fd(s);
        if (e == SSL_ERROR_WANT_READ)  { __maka_wait_fd(fd, MAKA_EV_READ); continue; }
        if (e == SSL_ERROR_WANT_WRITE) { __maka_wait_fd(fd, MAKA_EV_WRITE); continue; }
        return -1;
    }
}
static inline int64_t __maka_tls_read(maka_unit* p, maka_unit* buf, int64_t cap) {
    SSL* s = (SSL*)p;
    while (1) {
        int r = SSL_read(s, (void*)buf, (int)cap);
        if (r > 0) return (int64_t)r;
        int e = SSL_get_error(s, r);
        int fd = SSL_get_fd(s);
        if (e == SSL_ERROR_WANT_READ)  { __maka_wait_fd(fd, MAKA_EV_READ); continue; }
        if (e == SSL_ERROR_WANT_WRITE) { __maka_wait_fd(fd, MAKA_EV_WRITE); continue; }
        if (e == SSL_ERROR_ZERO_RETURN) return 0;
        return -1;
    }
}
static inline int64_t __maka_tls_write(maka_unit* p, maka_unit* buf, int64_t len) {
    SSL* s = (SSL*)p;
    int64_t w = 0;
    while (w < len) {
        int r = SSL_write(s, (const char*)(const void*)buf + w, (int)(len - w));
        if (r > 0) { w += r; continue; }
        int e = SSL_get_error(s, r);
        int fd = SSL_get_fd(s);
        if (e == SSL_ERROR_WANT_READ)  { __maka_wait_fd(fd, MAKA_EV_READ); continue; }
        if (e == SSL_ERROR_WANT_WRITE) { __maka_wait_fd(fd, MAKA_EV_WRITE); continue; }
        return -1;
    }
    return w;
}
static inline void __maka_tls_close(maka_unit* p) {
    SSL* s = (SSL*)p;
    SSL_shutdown(s);
    SSL_free(s);
}
#else
static inline int64_t __maka_tls_server_init(const char* cert_pem, const char* key_pem) { (void)cert_pem; (void)key_pem; return -1; }
static inline maka_unit* __maka_tls_server_accept_new(int64_t fd) { (void)fd; return NULL; }
static inline maka_unit* __maka_tls_client_new(int64_t fd, const char* hostname) { (void)fd; (void)hostname; return NULL; }
static inline int64_t __maka_tls_handshake(maka_unit* p) { (void)p; return -1; }
static inline int64_t __maka_tls_read(maka_unit* p, maka_unit* buf, int64_t cap) { (void)p; (void)buf; (void)cap; return -1; }
static inline int64_t __maka_tls_write(maka_unit* p, maka_unit* buf, int64_t len) { (void)p; (void)buf; (void)len; return -1; }
static inline void __maka_tls_close(maka_unit* p) { (void)p; }
#endif
"#;

/// Unix-domain sockets and their Windows emulation.
pub const UNIX_SOCKETS: &'static str = r#"#if defined(__APPLE__) || defined(__FreeBSD__) || defined(__NetBSD__) || defined(__OpenBSD__) || defined(__DragonFly__)
#define __maka_sockaddr_un sockaddr_un
#ifndef AF_UNIX
#define AF_UNIX 1
#endif
#define __MAKA_AF_UNIX AF_UNIX
#define __MAKA_SUN_LEN_INIT(sa) ((sa).sun_len = sizeof(sa))
#else
struct __maka_sockaddr_un { unsigned short sun_family; char sun_path[108]; };
#define __MAKA_AF_UNIX 1
#define __MAKA_SUN_LEN_INIT(sa) ((void)0)
#endif
#ifdef _WIN32
#define __MAKA_UNIX_MAX 32
typedef struct { char path[256]; int port; } __maka_unix_entry_t;
static __maka_unix_entry_t __maka_unix_table[__MAKA_UNIX_MAX];
static pthread_mutex_t __maka_unix_mu = PTHREAD_MUTEX_INITIALIZER;
static int __maka_unix_register(const char* path, int port) {
    pthread_mutex_lock(&__maka_unix_mu);
    for (int i = 0; i < __MAKA_UNIX_MAX; i++) {
        if (__maka_unix_table[i].port == 0 || strcmp(__maka_unix_table[i].path, path) == 0) {
            strncpy(__maka_unix_table[i].path, path, sizeof(__maka_unix_table[i].path)-1);
            __maka_unix_table[i].port = port;
            pthread_mutex_unlock(&__maka_unix_mu); return 0;
        }
    }
    pthread_mutex_unlock(&__maka_unix_mu); return -1;
}
static int __maka_unix_lookup(const char* path) {
    pthread_mutex_lock(&__maka_unix_mu);
    for (int i = 0; i < __MAKA_UNIX_MAX; i++) {
        if (__maka_unix_table[i].port != 0 && strcmp(__maka_unix_table[i].path, path) == 0) {
            int p = __maka_unix_table[i].port;
            pthread_mutex_unlock(&__maka_unix_mu); return p;
        }
    }
    pthread_mutex_unlock(&__maka_unix_mu); return -1;
}
static inline int64_t __maka_unix_listen(const char* path, int64_t backlog) {
    int s = socket(AF_INET, SOCK_STREAM, 0);
    if (s < 0) return -1;
    struct sockaddr_in sa; memset(&sa, 0, sizeof(sa)); __MAKA_SA_LEN_INIT(sa);
    sa.sin_family = AF_INET;
    sa.sin_addr.s_addr = htonl(INADDR_LOOPBACK);
    sa.sin_port = 0;
    if (bind(s, (struct sockaddr*)&sa, sizeof(sa)) != 0) { closesocket(s); return -1; }
    int sl = sizeof(sa);
    if (getsockname(s, (struct sockaddr*)&sa, &sl) != 0) { closesocket(s); return -1; }
    if (listen(s, (int)backlog) != 0) { closesocket(s); return -1; }
    u_long nb = 1; ioctlsocket((SOCKET)s, FIONBIO, &nb);
    if (__maka_unix_register(path, (int)ntohs(sa.sin_port)) != 0) { closesocket(s); return -1; }
    return s;
}
static inline int64_t __maka_unix_connect(const char* path) {
    /* Allow the listener side a brief moment to register if the
       client raced ahead. */
    int port = -1;
    for (int tries = 0; tries < 200; tries++) {
        port = __maka_unix_lookup(path);
        if (port > 0) break;
        Sleep(5);
    }
    if (port <= 0) return -1;
    int s = socket(AF_INET, SOCK_STREAM, 0);
    if (s < 0) return -1;
    struct sockaddr_in sa; memset(&sa, 0, sizeof(sa)); __MAKA_SA_LEN_INIT(sa);
    sa.sin_family = AF_INET;
    sa.sin_addr.s_addr = htonl(INADDR_LOOPBACK);
    sa.sin_port = htons((u_short)port);
    if (connect(s, (struct sockaddr*)&sa, sizeof(sa)) != 0) { closesocket(s); return -1; }
    u_long nb = 1; ioctlsocket((SOCKET)s, FIONBIO, &nb);
    return s;
}
#else
static inline int64_t __maka_unix_listen(const char* path, int64_t backlog) {
    int s = socket(__MAKA_AF_UNIX, __MAKA_SOCK_STREAM, 0);
    if (s < 0) return -1;
    struct __maka_sockaddr_un sa; memset(&sa, 0, sizeof(sa)); __MAKA_SUN_LEN_INIT(sa);
    sa.sun_family = __MAKA_AF_UNIX;
    size_t pl = strlen(path); if (pl >= sizeof(sa.sun_path)) pl = sizeof(sa.sun_path) - 1;
    memcpy(sa.sun_path, path, pl);
    unlink(path);  /* best-effort prior cleanup */
    if (bind(s, (struct sockaddr*)&sa, sizeof(sa)) != 0) { close(s); return -1; }
    if (listen(s, (int)backlog) != 0) { close(s); return -1; }
    int flags = fcntl(s, F_GETFL, 0); fcntl(s, F_SETFL, flags | O_NONBLOCK);
    return s;
}
static inline int64_t __maka_unix_connect(const char* path) {
    int s = socket(__MAKA_AF_UNIX, __MAKA_SOCK_STREAM, 0);
    if (s < 0) return -1;
    int flags = fcntl(s, F_GETFL, 0); fcntl(s, F_SETFL, flags | O_NONBLOCK);
    struct __maka_sockaddr_un sa; memset(&sa, 0, sizeof(sa)); __MAKA_SUN_LEN_INIT(sa);
    sa.sun_family = __MAKA_AF_UNIX;
    size_t pl = strlen(path); if (pl >= sizeof(sa.sun_path)) pl = sizeof(sa.sun_path) - 1;
    memcpy(sa.sun_path, path, pl);
    int r = connect(s, (struct sockaddr*)&sa, sizeof(sa));
    if (r == 0) return s;
    if (errno == EINPROGRESS) {
        __maka_wait_fd(s, MAKA_EV_WRITE);
        int err = 0; __maka_socklen_t elen = sizeof(err);
        getsockopt(s, __MAKA_SOL_SOCKET, __MAKA_SO_ERROR, &err, &elen);
        if (err == 0) return s;
    }
    close(s); return -1;
}
#endif
"#;

/// File reads and writes off the scheduler thread.
pub const FILE_ASYNC: &'static str = r#"typedef struct {
    int fd;
    void* buf;
    int64_t len;
    int64_t offset;
    _Atomic int64_t result;
    int efd;
    int is_write;
    _Atomic int refcount;
} __maka_aio_t;
#ifdef __linux__
static inline void __maka_aux_release(int read_fd) { (void)read_fd; }
#else
static void __maka_aux_release(int read_fd);
#endif
#ifndef _WIN32
#include <sys/types.h>
extern ssize_t pread (int, void*,       size_t, off_t);
extern ssize_t pwrite(int, const void*, size_t, off_t);
#endif
static void* __maka_aio_worker(void* arg) {
    __maka_aio_t* j = (__maka_aio_t*)arg;
    int64_t r;
#ifdef _WIN32
    if (j->is_write) r = (int64_t)pwrite(j->fd, j->buf, (size_t)j->len, (int64_t)j->offset);
    else             r = (int64_t)pread (j->fd, j->buf, (size_t)j->len, (int64_t)j->offset);
#else
    if (j->is_write) r = (int64_t)pwrite(j->fd, j->buf, (size_t)j->len, (off_t)j->offset);
    else             r = (int64_t)pread (j->fd, j->buf, (size_t)j->len, (off_t)j->offset);
#endif
    atomic_store_explicit(&j->result, r, memory_order_release);
#ifdef _WIN32
    (void)__maka_eventfd_signal(j->efd, 1);
#else
    uint64_t v = 1; ssize_t w = write(j->efd, &v, sizeof(v)); (void)w;
#endif
    if (atomic_fetch_sub(&j->refcount, 1) == 1) free(j);
    return NULL;
}
static inline int64_t __maka_file_read_async(int64_t fd, maka_unit* buf, int64_t cap, int64_t offset) {
    int efd = __maka_eventfd_create(0);
    if (efd < 0) return -1;
    __maka_aio_t* j = (__maka_aio_t*)calloc(1, sizeof(__maka_aio_t));
    j->fd = (int)fd; j->buf = (void*)buf; j->len = cap; j->offset = offset; j->efd = efd; j->is_write = 0;
    atomic_init(&j->refcount, 2);  /* worker + caller */
    pthread_t t;
    if (pthread_create(&t, NULL, __maka_aio_worker, j) != 0) {
        free(j);
#ifndef __linux__
        __maka_aux_release(efd);
#endif
        close(efd);
        return -1;
    }
    pthread_detach(t);
    Thread* aio_owner = (maka_current_fiber && maka_current_fiber != maka_anchor_fiber) ? maka_current_fiber->completion : NULL;
    if (aio_owner) atomic_store(&aio_owner->aio_in_flight, 1);
    (void)__maka_eventfd_recv(efd);
    if (aio_owner) atomic_store(&aio_owner->aio_in_flight, 0);
    int64_t r = atomic_load_explicit(&j->result, memory_order_acquire);
    if (atomic_fetch_sub(&j->refcount, 1) == 1) free(j);
#ifndef __linux__
    __maka_aux_release(efd);
#endif
    close(efd);
    return r;
}
static inline int64_t __maka_file_write_async(int64_t fd, maka_unit* buf, int64_t len, int64_t offset) {
    int efd = __maka_eventfd_create(0);
    if (efd < 0) return -1;
    __maka_aio_t* j = (__maka_aio_t*)calloc(1, sizeof(__maka_aio_t));
    j->fd = (int)fd; j->buf = (void*)buf; j->len = len; j->offset = offset; j->efd = efd; j->is_write = 1;
    atomic_init(&j->refcount, 2);  /* worker + caller */
    pthread_t t;
    if (pthread_create(&t, NULL, __maka_aio_worker, j) != 0) {
        free(j);
#ifndef __linux__
        __maka_aux_release(efd);
#endif
        close(efd);
        return -1;
    }
    pthread_detach(t);
    Thread* aio_owner = (maka_current_fiber && maka_current_fiber != maka_anchor_fiber) ? maka_current_fiber->completion : NULL;
    if (aio_owner) atomic_store(&aio_owner->aio_in_flight, 1);
    (void)__maka_eventfd_recv(efd);
    if (aio_owner) atomic_store(&aio_owner->aio_in_flight, 0);
    int64_t r = atomic_load_explicit(&j->result, memory_order_acquire);
    if (atomic_fetch_sub(&j->refcount, 1) == 1) free(j);
#ifndef __linux__
    __maka_aux_release(efd);
#endif
    close(efd);
    return r;
}
"#;

/// Opening, renaming, measuring and syncing files.
pub const FILES: &'static str = r#"#if !defined(_WIN32) && !defined(__APPLE__) && !defined(__FreeBSD__) && !defined(__NetBSD__) && !defined(__OpenBSD__) && !defined(__DragonFly__)
extern int open(const char*, int, ...);
#endif
#define __MAKA_O_RDONLY 0
#define __MAKA_O_WRONLY 1
#define __MAKA_O_RDWR   2
#define __MAKA_O_CREAT  64
#define __MAKA_O_TRUNC  512
static inline int64_t __maka_file_open(const char* path, int64_t flags, int64_t mode) {
#ifdef _WIN32
    int wf = 0;
    int access = (int)flags & 3;
    if (access == 0) wf |= _O_RDONLY;
    else if (access == 1) wf |= _O_WRONLY;
    else if (access == 2) wf |= _O_RDWR;
    if (flags & 64)    wf |= _O_CREAT;
    if (flags & 512)   wf |= _O_TRUNC;
    if (flags & 1024)  wf |= _O_APPEND;
    /* O_NONBLOCK (2048) has no mingw equivalent — silently ignored. */
    wf |= _O_BINARY;
    WCHAR* wpath = __maka_path_to_w(path);
    if (!wpath) return -1;
    int rc = _wopen(wpath, wf, (int)mode);
    free(wpath); return (int64_t)rc;
#else
    return (int64_t)open(path, (int)flags, (int)mode);
#endif
}
int64_t __maka_rt_file_unlink(const char* path) {
#ifdef _WIN32
    WCHAR* wp = __maka_path_to_w(path); if (!wp) return -1;
    int rc = _wunlink(wp); free(wp); return rc;
#else
    return unlink(path);
#endif
}
int64_t __maka_rt_file_rename(const char* from, const char* to) {
#ifdef _WIN32
    WCHAR* wf = __maka_path_to_w(from); if (!wf) return -1;
    WCHAR* wt = __maka_path_to_w(to);   if (!wt) { free(wf); return -1; }
    int rc = _wrename(wf, wt); free(wf); free(wt); return rc;
#else
    return rename(from, to);
#endif
}
int64_t __maka_rt_file_mkdir(const char* path, int64_t mode) {
#ifdef _WIN32
    (void)mode;
    WCHAR* wp = __maka_path_to_w(path); if (!wp) return -1;
    int rc = _wmkdir(wp); free(wp); return rc;
#else
    return mkdir(path, (mode_t)mode);
#endif
}
int64_t __maka_rt_file_size(const char* path) {
#ifdef _WIN32
    struct __stat64 st;
    WCHAR* wp = __maka_path_to_w(path); if (!wp) return -1;
    int sr = _wstat64(wp, &st); free(wp); if (sr != 0) return -1;
    return (int64_t)st.st_size;
#else
    struct stat st;
    if (stat(path, &st) != 0) return -1;
    return (int64_t)st.st_size;
#endif
}
maka_char* __maka_rt_read_file(const char* path) {
    FILE* fp = fopen(path, "rb"); if (!fp) return (maka_char*)0;
    if (fseek(fp, 0, SEEK_END) != 0) { fclose(fp); return (maka_char*)0; }
    long n = ftell(fp); if (n < 0) { fclose(fp); return (maka_char*)0; }
    rewind(fp);
    char* buf = (char*)malloc((size_t)n + 1); if (!buf) { fclose(fp); return (maka_char*)0; }
    size_t rd = fread(buf, 1, (size_t)n, fp); fclose(fp); buf[rd] = 0; return (maka_char*)buf;
}
maka_char* __maka_rt_substr_owned(const char* s, int64_t start, int64_t len) {
    if (start < 0) start = 0; if (len < 0) len = 0;
    char* r = (char*)malloc((size_t)len + 1);
    for (int64_t k = 0; k < len; k++) r[k] = s[start + k];
    r[len] = 0; return (maka_char*)r;
}
int64_t __maka_rt_write_file(const char* path, const char* data, int64_t len) {
    FILE* fp = fopen(path, "wb"); if (!fp) return -1;
    size_t wr = fwrite(data, 1, (size_t)len, fp); fclose(fp);
    return (wr == (size_t)len) ? 0 : -1;
}
int64_t __maka_rt_str_hash(const char* s) {
    uint64_t h = 1469598103934665603ULL;
    while (*s) { h ^= (unsigned char)(*s++); h *= 1099511628211ULL; }
    return (int64_t)(h & 0x7fffffffffffffffULL);
}
int64_t __maka_rt_str_byte(const char* s, int64_t i) {
    if (i < 0) return -1;
    return (int64_t)(unsigned char)s[i];
}
int64_t __maka_rt_file_sync(int64_t fd) {
#ifdef _WIN32
    HANDLE h = (HANDLE)_get_osfhandle((int)fd);
    if (h == INVALID_HANDLE_VALUE) return -1;
    return FlushFileBuffers(h) ? 0 : -1;
#else
    return fsync((int)fd);
#endif
}
int64_t __maka_rt_file_truncate(int64_t fd, int64_t len) {
#ifdef _WIN32
    return _chsize_s((int)fd, (__int64)len);
#else
    return ftruncate((int)fd, (off_t)len);
#endif
}
"#;

/// Channel polling, pointer-sized atomics, directories and the environment.
pub const SHIMS: &'static str = r#"static inline int64_t __maka_chan_try_recv_int(maka_unit* p, int64_t* out) {
    /* fast non-blocking peek: if count > 0, do the recv (which won't block). */
    if (!p || !out) return 0;
    if (maka_chan_bytes_count(p) <= 0) return 0;
    int64_t v = 0; maka_chan_bytes_recv(p, (maka_unit*)&v);
    *out = v; return 1;
}
maka_unit* __maka_atomic_bool_new(int64_t v) { return maka_atomic_i64_new(v ? 1 : 0); }
int64_t __maka_atomic_bool_get(maka_unit* a) { return maka_atomic_i64_load(a) ? 1 : 0; }
void    __maka_atomic_bool_set(maka_unit* a, int64_t v) { maka_atomic_i64_store(a, v ? 1 : 0); }
maka_unit* __maka_atomic_ptr_new(maka_unit* p) { return maka_atomic_i64_new((int64_t)(intptr_t)p); }
maka_unit* __maka_atomic_ptr_get(maka_unit* a) { return (maka_unit*)(intptr_t)maka_atomic_i64_load(a); }
void       __maka_atomic_ptr_set(maka_unit* a, maka_unit* p) { maka_atomic_i64_store(a, (int64_t)(intptr_t)p); }
int64_t __maka_rt_file_exists(const char* path) {
#ifdef _WIN32
    struct __stat64 st;
    WCHAR* wp = __maka_path_to_w(path); if (!wp) return 0;
    int sr = _wstat64(wp, &st); free(wp); return sr == 0 ? 1 : 0;
#else
    struct stat st; return stat(path, &st) == 0 ? 1 : 0;
#endif
}
int64_t __maka_rt_file_is_dir(const char* path) {
#ifdef _WIN32
    struct __stat64 st;
    WCHAR* wp = __maka_path_to_w(path); if (!wp) return 0;
    int sr = _wstat64(wp, &st); free(wp); if (sr != 0) return 0;
    return ((st.st_mode & 0xF000) == 0x4000) ? 1 : 0;
#else
    struct stat st; if (stat(path, &st) != 0) return 0;
    return ((st.st_mode & 0170000) == 0040000) ? 1 : 0;
#endif
}
const char* __maka_rt_env_get(const char* name) {
    const char* v = getenv(name);
    if (!v) { char* e = (char*)malloc(1); e[0] = 0; return e; }
    size_t n = strlen(v);
    char* s = (char*)malloc(n + 1);
    memcpy(s, v, n + 1);
    return s;
}
void __maka_rt_process_exit(int64_t code) { exit((int)code); }
"#;

/// String conversion, search and replacement.
pub const STRINGS: &'static str = r#"int64_t __maka_rt_str_to_int(const char* s) {
    if (!s) return 0;
    char* end; long long v = strtoll(s, &end, 10); return (int64_t)v;
}
const char* __maka_rt_int_to_str(int64_t n) {
    char buf[32]; int len = snprintf(buf, sizeof(buf), "%lld", (long long)n);
    if (len < 0) len = 0;
    char* s = (char*)malloc((size_t)len + 1);
    memcpy(s, buf, (size_t)len + 1);
    return s;
}
int64_t __maka_rt_str_find(const char* s, const char* needle) {
    if (!s || !needle) return -1;
    const char* p = strstr(s, needle);
    return p ? (int64_t)(p - s) : -1;
}
int64_t __maka_rt_str_starts_with(const char* s, const char* prefix) {
    if (!s || !prefix) return 0;
    size_t pl = strlen(prefix);
    return strncmp(s, prefix, pl) == 0 ? 1 : 0;
}
int64_t __maka_rt_str_ends_with(const char* s, const char* suffix) {
    if (!s || !suffix) return 0;
    size_t sl = strlen(s), xl = strlen(suffix);
    if (xl > sl) return 0;
    return strcmp(s + sl - xl, suffix) == 0 ? 1 : 0;
}
const char* __maka_rt_str_to_upper(const char* s) {
    if (!s) { char* e = (char*)malloc(1); e[0] = 0; return e; }
    size_t l = strlen(s);
    char* o = (char*)malloc(l + 1);
    for (size_t i = 0; i < l; i++) {
        char c = s[i]; o[i] = (c >= 'a' && c <= 'z') ? (c - 32) : c;
    }
    o[l] = 0; return o;
}
const char* __maka_rt_str_to_lower(const char* s) {
    if (!s) { char* e = (char*)malloc(1); e[0] = 0; return e; }
    size_t l = strlen(s);
    char* o = (char*)malloc(l + 1);
    for (size_t i = 0; i < l; i++) {
        char c = s[i]; o[i] = (c >= 'A' && c <= 'Z') ? (c + 32) : c;
    }
    o[l] = 0; return o;
}
const char* __maka_rt_str_trim(const char* s) {
    if (!s) { char* e = (char*)malloc(1); e[0] = 0; return e; }
    const char* p = s;
    while (*p == ' ' || *p == '\t' || *p == '\n' || *p == '\r') p++;
    const char* e = s + strlen(s);
    while (e > p && (e[-1] == ' ' || e[-1] == '\t' || e[-1] == '\n' || e[-1] == '\r')) e--;
    size_t l = (size_t)(e - p);
    char* o = (char*)malloc(l + 1);
    memcpy(o, p, l); o[l] = 0; return o;
}
const char* __maka_rt_str_replace(const char* s, const char* from, const char* to) {
    if (!s) { char* e = (char*)malloc(1); e[0] = 0; return e; }
    if (!from || !*from || !to) {
        size_t sl = strlen(s);
        char* o = (char*)malloc(sl + 1);
        memcpy(o, s, sl + 1); return o;
    }
    size_t fl = strlen(from), tl = strlen(to);
    size_t count = 0;
    for (const char* p = s; (p = strstr(p, from)); p += fl) count++;
    size_t sl = strlen(s);
    size_t out_len = sl + count * (tl > fl ? (tl - fl) : 0) - count * (fl > tl ? (fl - tl) : 0);
    char* o = (char*)malloc(out_len + 1);
    char* w = o;
    const char* r = s;
    while (1) {
        const char* p = strstr(r, from);
        if (!p) { size_t rem = strlen(r); memcpy(w, r, rem); w += rem; break; }
        size_t pref = (size_t)(p - r);
        memcpy(w, r, pref); w += pref;
        memcpy(w, to, tl); w += tl;
        r = p + fl;
    }
    *w = 0; return o;
}
"#;

/// Random numbers, program arguments, the environment and host lookup.
pub const RANDOM_AND_ARGS: &'static str = r#"static __thread uint64_t __maka_rt_rng_state = 0;
static inline uint64_t __maka_rt_rng_next(void) {
    if (__maka_rt_rng_state == 0) {
        __maka_rt_rng_state = (uint64_t)__maka_now_ns() ^ (uint64_t)(uintptr_t)&__maka_rt_rng_state;
        if (__maka_rt_rng_state == 0) __maka_rt_rng_state = 0x9E3779B97F4A7C15ULL;
    }
    uint64_t x = __maka_rt_rng_state;
    x ^= x << 13; x ^= x >> 7; x ^= x << 17;
    __maka_rt_rng_state = x; return x;
}
int64_t __maka_rt_random_int(int64_t lo, int64_t hi) {
    if (hi <= lo) return lo;
    uint64_t range = (uint64_t)hi - (uint64_t)lo;
    uint64_t limit = UINT64_MAX - (UINT64_MAX % range);
    uint64_t r;
    do { r = __maka_rt_rng_next(); } while (r >= limit);
    return (int64_t)((uint64_t)lo + (r % range));
}
double __maka_rt_random_float(void) {
    return (double)(__maka_rt_rng_next() >> 11) * (1.0 / 9007199254740992.0);
}
int64_t __maka_rt_chan_try_recv_int(maka_unit* p, int64_t* out) {
    if (!p || !out) return 0;
    if (maka_chan_bytes_count(p) <= 0) return 0;
    int64_t v = 0; maka_chan_bytes_recv(p, (maka_unit*)&v);
    *out = v; return 1;
}
int64_t __maka_rt_chan_try_recv_float(maka_unit* p, double* out) {
    if (!p || !out) return 0;
    if (maka_chan_bytes_count(p) <= 0) return 0;
    double v = 0; maka_chan_bytes_recv(p, (maka_unit*)&v);
    *out = v; return 1;
}
int64_t __maka_rt_env_set(const char* name, const char* value) {
#ifdef _WIN32
    return _putenv_s(name, value);
#else
    return setenv(name, value, 1);
#endif
}
static int __maka_rt_argc = 0;
static char** __maka_rt_argv = NULL;
static void __maka_rt_set_args(int argc, char** argv) {
    __maka_rt_argc = argc; __maka_rt_argv = argv;
}
int64_t __maka_rt_args_count(void) { return (int64_t)__maka_rt_argc; }
const char* __maka_rt_arg_at(int64_t i) {
    if (i < 0 || i >= (int64_t)__maka_rt_argc) { char* e = (char*)malloc(1); e[0] = 0; return e; }
    return __maka_rt_argv[i];
}
int64_t __maka_rt_tcp_connect_host(const char* host, int64_t port) {
    int64_t addr = __maka_dns_resolve_v4(host);
    if (addr < 0) return -1;
    int a = (int)((addr >> 24) & 0xFF);
    int b = (int)((addr >> 16) & 0xFF);
    int c = (int)((addr >> 8)  & 0xFF);
    int d = (int)( addr        & 0xFF);
    return __maka_tcp_connect_v4(a, b, c, d, (int)port);
}
int64_t __maka_rt_tcp_set_nodelay(int64_t fd, int64_t on) {
#ifdef _WIN32
    int v = (int)on;
    return setsockopt((SOCKET)fd, IPPROTO_TCP, TCP_NODELAY, (const char*)&v, sizeof(v));
#else
    int v = (int)on;
    return setsockopt((int)fd, 6 /* IPPROTO_TCP */, 1 /* TCP_NODELAY */, &v, sizeof(v));
#endif
}
int64_t __maka_rt_random_bytes(maka_unit* buf, int64_t len) {
    uint8_t* p = (uint8_t*)buf;
    int64_t i = 0;
    while (i + 8 <= len) {
        uint64_t r = __maka_rt_rng_next();
        memcpy(p + i, &r, 8); i += 8;
    }
    if (i < len) {
        uint64_t r = __maka_rt_rng_next();
        memcpy(p + i, &r, (size_t)(len - i));
    }
    return len;
}
"#;

/// Substrings, splitting and directory listing.
pub const STRING_SLICES: &'static str = r#"const char* __maka_rt_str_substring(const char* s, int64_t start, int64_t len) {
    if (!s) { char* e = (char*)malloc(1); e[0] = 0; return e; }
    size_t slen = strlen(s);
    if (start < 0) start = 0;
    if ((size_t)start > slen) start = (int64_t)slen;
    if (len < 0) len = 0;
    if ((size_t)(start + len) > slen) len = (int64_t)(slen - (size_t)start);
    char* o = (char*)malloc((size_t)len + 1);
    memcpy(o, s + start, (size_t)len); o[len] = 0;
    return o;
}
#ifndef _WIN32
#include <dirent.h>
#endif
const char** __maka_rt_file_listdir(const char* path, int64_t* out_n) {
    *out_n = 0;
#ifdef _WIN32
    int wlen = MultiByteToWideChar(CP_UTF8, 0, path, -1, NULL, 0);
    if (wlen <= 0) return NULL;
    WCHAR* wpattern = (WCHAR*)calloc((size_t)(wlen + 3), sizeof(WCHAR));
    if (!wpattern) return NULL;
    if (MultiByteToWideChar(CP_UTF8, 0, path, -1, wpattern, wlen) <= 0) { free(wpattern); return NULL; }
    wpattern[wlen - 1] = L'\\'; wpattern[wlen] = L'*'; wpattern[wlen + 1] = 0;
    WIN32_FIND_DATAW fd;
    HANDLE h = FindFirstFileW(wpattern, &fd);
    free(wpattern);
    if (h == INVALID_HANDLE_VALUE) return NULL;
    size_t cap = 16, n = 0;
    const char** arr = (const char**)malloc(cap * sizeof(const char*));
    do {
        if (fd.cFileName[0] == L'.' && (fd.cFileName[1] == 0 || (fd.cFileName[1] == L'.' && fd.cFileName[2] == 0))) continue;
        int u8len = WideCharToMultiByte(CP_UTF8, 0, fd.cFileName, -1, NULL, 0, NULL, NULL);
        if (u8len <= 0) continue;
        if (n == cap) {
            const char** narr = (const char**)realloc(arr, cap * 2 * sizeof(const char*));
            if (!narr) {
                for (size_t i = 0; i < n; i++) free((void*)arr[i]);
                free(arr); *out_n = 0;
#ifdef _WIN32
                FindClose(h);
#else
                closedir(d);
#endif
                return NULL;
            }
            arr = narr; cap *= 2;
        }
        char* s = (char*)malloc((size_t)u8len);
        WideCharToMultiByte(CP_UTF8, 0, fd.cFileName, -1, s, u8len, NULL, NULL);
        arr[n++] = s;
    } while (FindNextFileW(h, &fd));
    FindClose(h);
    *out_n = (int64_t)n; return arr;
#else
    DIR* d = opendir(path);
    if (!d) return NULL;
    size_t cap = 16, n = 0;
    const char** arr = (const char**)malloc(cap * sizeof(const char*));
    struct dirent* ent;
    while ((ent = readdir(d))) {
        if (strcmp(ent->d_name, ".") == 0 || strcmp(ent->d_name, "..") == 0) continue;
        if (n == cap) {
            const char** narr = (const char**)realloc(arr, cap * 2 * sizeof(const char*));
            if (!narr) {
                for (size_t i = 0; i < n; i++) free((void*)arr[i]);
                free(arr); *out_n = 0;
#ifdef _WIN32
                FindClose(h);
#else
                closedir(d);
#endif
                return NULL;
            }
            arr = narr; cap *= 2;
        }
        size_t l = strlen(ent->d_name);
        char* s = (char*)malloc(l + 1);
        memcpy(s, ent->d_name, l + 1);
        arr[n++] = s;
    }
    closedir(d);
    *out_n = (int64_t)n; return arr;
#endif
}
const char** __maka_rt_str_split(const char* s, const char* sep, int64_t* out_n) {
    *out_n = 0;
    if (!s || !sep || !*sep) return NULL;
    size_t cap = 8, n = 0;
    const char** arr = (const char**)malloc(cap * sizeof(const char*));
    size_t sep_len = strlen(sep);
    const char* cur = s;
    while (1) {
        const char* p = strstr(cur, sep);
        size_t l = p ? (size_t)(p - cur) : strlen(cur);
        if (n == cap) {
            const char** narr = (const char**)realloc(arr, cap * 2 * sizeof(const char*));
            if (!narr) {
                for (size_t i = 0; i < n; i++) free((void*)arr[i]);
                free(arr); *out_n = 0;
                return NULL;
            }
            arr = narr; cap *= 2;
        }
        char* tok = (char*)malloc(l + 1);
        memcpy(tok, cur, l); tok[l] = 0;
        arr[n++] = tok;
        if (!p) break;
        cur = p + sep_len;
    }
    *out_n = (int64_t)n; return arr;
}
"#;

/// Byte-channel polling and child processes.
pub const PROCESSES: &'static str = r#"int64_t __maka_rt_chan_try_recv_bytes(maka_unit* p, maka_unit* out) {
    if (!p || !out) return 0;
    if (maka_chan_bytes_count(p) <= 0) return 0;
    maka_chan_bytes_recv(p, out); return 1;
}
int64_t __maka_rt_process_id(void) {
#ifdef _WIN32
    return (int64_t)GetCurrentProcessId();
#else
    return (int64_t)getpid();
#endif
}
int64_t __maka_rt_env_remove(const char* name) {
#ifdef _WIN32
    return _putenv_s(name, "");
#else
    return unsetenv(name);
#endif
}
int64_t __maka_rt_process_run(int64_t argc, const char** argv) {
    if (argc <= 0 || !argv || !argv[0]) return -1;
#ifdef _WIN32
    size_t cap = 1024; char* cmd = (char*)malloc(cap); size_t len = 0;
    for (int64_t i = 0; i < argc; i++) {
        const char* a = argv[i]; size_t l = strlen(a);
        while (len + l * 2 + 4 > cap) {
            char* nc = (char*)realloc(cmd, cap * 2);
            if (!nc) { free(cmd); return -1; }
            cmd = nc; cap *= 2;
        }
        if (i) cmd[len++] = ' ';
        cmd[len++] = '"';
        size_t j = 0;
        while (j < l) {
            size_t bs = 0;
            while (j < l && a[j] == '\\') { bs++; j++; }
            if (j == l) {
                while (bs--) { cmd[len++] = '\\'; cmd[len++] = '\\'; }
            } else if (a[j] == '"') {
                while (bs--) { cmd[len++] = '\\'; cmd[len++] = '\\'; }
                cmd[len++] = '\\'; cmd[len++] = '"'; j++;
            } else {
                while (bs--) { cmd[len++] = '\\'; }
                cmd[len++] = a[j++];
            }
        }
        cmd[len++] = '"';
    }
    cmd[len] = 0;
    int wclen = MultiByteToWideChar(CP_UTF8, 0, cmd, -1, NULL, 0);
    if (wclen <= 0) { free(cmd); return -1; }
    WCHAR* wcmd = (WCHAR*)calloc((size_t)wclen, sizeof(WCHAR));
    if (!wcmd) { free(cmd); return -1; }
    if (MultiByteToWideChar(CP_UTF8, 0, cmd, -1, wcmd, wclen) <= 0) { free(cmd); free(wcmd); return -1; }
    STARTUPINFOW si; memset(&si, 0, sizeof(si)); si.cb = sizeof(si);
    PROCESS_INFORMATION pi; memset(&pi, 0, sizeof(pi));
    BOOL ok = CreateProcessW(NULL, wcmd, NULL, NULL, FALSE, 0, NULL, NULL, &si, &pi);
    free(cmd); free(wcmd);
    if (!ok) return -1;
    WaitForSingleObject(pi.hProcess, INFINITE);
    DWORD code = 0; GetExitCodeProcess(pi.hProcess, &code);
    CloseHandle(pi.hProcess); CloseHandle(pi.hThread);
    return (int64_t)code;
#else
    pid_t pid = fork();
    if (pid < 0) return -1;
    if (pid == 0) {
        if (argc < 0 || argc >= (int64_t)(SIZE_MAX / sizeof(char*)) - 1) _exit(127);
        char** av = (char**)malloc((size_t)(argc + 1) * sizeof(char*));
        if (!av) _exit(127);
        for (int64_t i = 0; i < argc; i++) av[i] = (char*)argv[i];
        av[argc] = NULL;
        execvp(av[0], av);
        _exit(127);
    }
    int status; waitpid(pid, &status, 0);
    if (WIFEXITED(status)) return (int64_t)WEXITSTATUS(status);
    return -1;
#endif
}
"#;

/// Copying, resolving and stamping paths; name resolution.
pub const FILE_TREES: &'static str = r#"int64_t __maka_rt_file_copy(const char* src, const char* dst) {
    int sfd = (int)__maka_file_open(src, 0, 0);
    if (sfd < 0) return -1;
    int dfd = (int)__maka_file_open(dst, 1 | 64 | 512, 420);
    if (dfd < 0) { close(sfd); return -1; }
    char buf[8192]; int64_t total = 0; ssize_t n;
    while (1) {
#ifdef _WIN32
        n = (ssize_t)_read(sfd, buf, sizeof(buf));
#else
        n = read(sfd, buf, sizeof(buf));
#endif
        if (n < 0) { close(sfd); close(dfd); return -1; }
        if (n == 0) break;
#ifdef _WIN32
        ssize_t w = (ssize_t)_write(dfd, buf, (unsigned int)n);
#else
        ssize_t w = write(dfd, buf, (size_t)n);
#endif
        if (w != n) { close(sfd); close(dfd); return -1; }
        total += w;
    }
    close(sfd); close(dfd); return total >= 0 ? 0 : -1;
}
int64_t __maka_rt_file_chmod(const char* path, int64_t mode) {
#ifdef _WIN32
    WCHAR* wp = __maka_path_to_w(path); if (!wp) return -1;
    int rc = _wchmod(wp, (int)mode); free(wp); return rc;
#else
    return chmod(path, (mode_t)mode);
#endif
}
const char* __maka_rt_file_realpath(const char* path) {
#ifdef _WIN32
    int wlen = MultiByteToWideChar(CP_UTF8, 0, path, -1, NULL, 0);
    if (wlen <= 0) { char* e = (char*)malloc(1); e[0] = 0; return e; }
    WCHAR* wpath = (WCHAR*)calloc((size_t)wlen, sizeof(WCHAR));
    if (!wpath) { char* e = (char*)malloc(1); e[0] = 0; return e; }
    if (MultiByteToWideChar(CP_UTF8, 0, path, -1, wpath, wlen) <= 0) { free(wpath); char* e = (char*)malloc(1); e[0] = 0; return e; }
    DWORD need = GetFullPathNameW(wpath, 0, NULL, NULL);
    if (need == 0) { free(wpath); char* e = (char*)malloc(1); e[0] = 0; return e; }
    WCHAR* wbuf = (WCHAR*)calloc((size_t)need, sizeof(WCHAR));
    if (!wbuf) { free(wpath); char* e = (char*)malloc(1); e[0] = 0; return e; }
    GetFullPathNameW(wpath, need, wbuf, NULL);
    free(wpath);
    int u8len = WideCharToMultiByte(CP_UTF8, 0, wbuf, -1, NULL, 0, NULL, NULL);
    if (u8len <= 0) { free(wbuf); char* e = (char*)malloc(1); e[0] = 0; return e; }
    char* o = (char*)malloc((size_t)u8len);
    if (!o) { free(wbuf); char* e = (char*)malloc(1); e[0] = 0; return e; }
    WideCharToMultiByte(CP_UTF8, 0, wbuf, -1, o, u8len, NULL, NULL);
    free(wbuf); return o;
#else
    char buf[4096];
    if (!realpath(path, buf)) { char* e = (char*)malloc(1); e[0] = 0; return e; }
    size_t l = strlen(buf);
    char* o = (char*)malloc(l + 1);
    memcpy(o, buf, l + 1); return o;
#endif
}
int64_t __maka_rt_udp_recv_from(int64_t fd, maka_unit* buf, int64_t cap, int64_t* peer_v4, int64_t* peer_port) {
    struct sockaddr_in sa; memset(&sa, 0, sizeof(sa)); __MAKA_SA_LEN_INIT(sa);
#ifdef _WIN32
    int sl = sizeof(sa);
#else
    __maka_socklen_t sl = sizeof(sa);
#endif
    long n = recvfrom((int)fd, (void*)buf, (unsigned long)cap, 0, (struct sockaddr*)&sa, &sl);
    if (n < 0) return -1;
    if (peer_v4)   *peer_v4   = (int64_t)ntohl(sa.sin_addr.s_addr);
    if (peer_port) *peer_port = (int64_t)ntohs(sa.sin_port);
    return (int64_t)n;
}
int64_t __maka_rt_file_mtime_ns(const char* path) {
#ifdef _WIN32
    struct __stat64 st;
    WCHAR* wp = __maka_path_to_w(path); if (!wp) return -1;
    int sr = _wstat64(wp, &st); free(wp); if (sr != 0) return -1;
    return (int64_t)st.st_mtime * 1000000000LL;
#else
    struct stat st; if (stat(path, &st) != 0) return -1;
    return (int64_t)st.st_mtime * 1000000000LL;
#endif
}
#if defined(__APPLE__) || defined(__FreeBSD__) || defined(__NetBSD__) || defined(__OpenBSD__) || defined(__DragonFly__)
#include <netdb.h>
#define __maka_hostent_t struct hostent
#elif !defined(_WIN32)
struct __maka_hostent { char* h_name; char** h_aliases; int h_addrtype; int h_length; char** h_addr_list; };
extern struct __maka_hostent* gethostbyname(const char*);
#define __maka_hostent_t struct __maka_hostent
#else
#define __maka_hostent_t struct hostent
#endif
static inline int64_t __maka_dns_resolve_v4(const char* host) {
    __maka_hostent_t* he = gethostbyname(host);
    if (!he || !he->h_addr_list || !he->h_addr_list[0]) return -1;
    unsigned char* p = (unsigned char*)he->h_addr_list[0];
    return ((int64_t)p[0] << 24) | ((int64_t)p[1] << 16) | ((int64_t)p[2] << 8) | (int64_t)p[3];
}
"#;

/// Datagram sockets.
pub const UDP: &'static str = r#"static inline int64_t __maka_udp_open(int64_t port) {
    int s = socket(__MAKA_AF_INET, 2 /*SOCK_DGRAM*/, 0);
    if (s < 0) return -1;
    struct sockaddr_in sa; memset(&sa, 0, sizeof(sa)); __MAKA_SA_LEN_INIT(sa);
    sa.sin_family = __MAKA_AF_INET;
    sa.sin_addr.s_addr = htonl(__MAKA_INADDR_ANY);
    sa.sin_port = htons((unsigned short)port);
    if (port > 0 && bind(s, (struct sockaddr*)&sa, sizeof(sa)) != 0) { close(s); return -1; }
    int flags = fcntl(s, F_GETFL, 0);
    fcntl(s, F_SETFL, flags | O_NONBLOCK);
    return s;
}
static inline int64_t __maka_udp_send_v4(int64_t fd, int64_t a, int64_t b, int64_t c, int64_t d, int64_t port, maka_unit* buf, int64_t len) {
    struct sockaddr_in sa; memset(&sa, 0, sizeof(sa)); __MAKA_SA_LEN_INIT(sa);
    sa.sin_family = __MAKA_AF_INET;
    sa.sin_port = htons((unsigned short)port);
    unsigned char oct[4] = {(unsigned char)a, (unsigned char)b, (unsigned char)c, (unsigned char)d};
    memcpy(&sa.sin_addr.s_addr, oct, 4);
    while (1) {
        long n = sendto((int)fd, (void*)buf, (unsigned long)len, 0, (struct sockaddr*)&sa, sizeof(sa));
        if (n >= 0) return (int64_t)n;
        if (errno == EAGAIN || errno == EWOULDBLOCK) { __maka_wait_fd(fd, MAKA_EV_WRITE); continue; }
        if (errno == EINTR) continue;
        return -1;
    }
}
"#;

/// Signals, file watches, events and timers as Linux descriptors.
pub const LINUX_EVENTS: &'static str = r#"#ifdef __linux__
#include <sys/signalfd.h>
static inline int64_t __maka_signalfd_open(int64_t signum) {
    sigset_t mask; sigemptyset(&mask); sigaddset(&mask, (int)signum);
    pthread_sigmask(SIG_BLOCK, &mask, NULL);
    int fd = signalfd(-1, &mask, SFD_NONBLOCK | SFD_CLOEXEC);
    return fd;
}
static inline int64_t __maka_signalfd_recv(int64_t fd) {
    struct signalfd_siginfo si;
    while (1) {
        ssize_t n = read((int)fd, &si, sizeof(si));
        if (n == (ssize_t)sizeof(si)) return (int64_t)si.ssi_signo;
        if (n < 0 && (errno == EAGAIN || errno == EWOULDBLOCK)) { __maka_wait_fd(fd, MAKA_EV_READ); continue; }
        if (errno == EINTR) continue;
        return -1;
    }
}
#include <sys/timerfd.h>
#include <sys/eventfd.h>
#include <sys/inotify.h>
static inline int64_t __maka_inotify_open(void) {
    return inotify_init1(IN_NONBLOCK | IN_CLOEXEC);
}
static inline int64_t __maka_inotify_add(int64_t fd, const char* path, int64_t mask) {
    return inotify_add_watch((int)fd, path, (uint32_t)mask);
}
static inline int64_t __maka_inotify_recv(int64_t fd) {
    char buf[sizeof(struct inotify_event) + 256] __attribute__((aligned(8)));
    while (1) {
        ssize_t n = read((int)fd, buf, sizeof(buf));
        if (n > 0) { struct inotify_event* e = (struct inotify_event*)buf; return (int64_t)e->wd; }
        if (n < 0 && (errno == EAGAIN || errno == EWOULDBLOCK)) { __maka_wait_fd(fd, MAKA_EV_READ); continue; }
        if (errno == EINTR) continue;
        return -1;
    }
}
static inline int64_t __maka_eventfd_create(int64_t initial) {
    return eventfd((unsigned int)initial, EFD_NONBLOCK | EFD_CLOEXEC);
}
static inline int64_t __maka_eventfd_signal(int64_t fd, int64_t n) {
    uint64_t v = (uint64_t)n;
    ssize_t w = write((int)fd, &v, sizeof(v));
    return (w == (ssize_t)sizeof(v)) ? 0 : -1;
}
static inline int64_t __maka_eventfd_recv(int64_t fd) {
    uint64_t v;
    while (1) {
        ssize_t r = read((int)fd, &v, sizeof(v));
        if (r == (ssize_t)sizeof(v)) return (int64_t)v;
        if (r < 0 && (errno == EAGAIN || errno == EWOULDBLOCK)) { __maka_wait_fd(fd, MAKA_EV_READ); continue; }
        if (errno == EINTR) continue;
        return -1;
    }
}
static inline int64_t __maka_timerfd_create(int64_t initial_ns, int64_t interval_ns) {
    int fd = timerfd_create(CLOCK_MONOTONIC, TFD_NONBLOCK | TFD_CLOEXEC);
    if (fd < 0) return -1;
    struct itimerspec it = { .it_interval = { interval_ns / 1000000000LL, interval_ns % 1000000000LL },
                              .it_value    = { initial_ns / 1000000000LL,  initial_ns % 1000000000LL } };
    if (timerfd_settime(fd, 0, &it, NULL) != 0) { close(fd); return -1; }
    return fd;
}
static inline int64_t __maka_timerfd_recv(int64_t fd) {
    uint64_t exp;
    while (1) {
        ssize_t n = read((int)fd, &exp, sizeof(exp));
        if (n == (ssize_t)sizeof(exp)) return (int64_t)exp;
        if (n < 0 && (errno == EAGAIN || errno == EWOULDBLOCK)) { __maka_wait_fd(fd, MAKA_EV_READ); continue; }
        if (errno == EINTR) continue;
        return -1;
    }
}
"#;

/// The same events for other systems, and datagram receive.
pub const PORTABLE_EVENTS: &'static str = r#"#else
#define __MAKA_AUX_MAX 256
typedef struct { int read_fd; int write_fd; _Atomic int64_t count; int used; } maka_aux_t;
static maka_aux_t __maka_aux[__MAKA_AUX_MAX];
static _Atomic int __maka_aux_n = 0;
static pthread_mutex_t __maka_aux_mu = PTHREAD_MUTEX_INITIALIZER;
static int __maka_aux_alloc(void) {
    int fds[2]; if (pipe(fds) != 0) return -1;
    /* The recv loop in __maka_eventfd_recv expects EWOULDBLOCK
       on an empty fd, so the underlying sockets must be
       non-blocking. */
#ifdef _WIN32
    { u_long nb = 1; ioctlsocket((SOCKET)fds[0], FIONBIO, &nb); ioctlsocket((SOCKET)fds[1], FIONBIO, &nb); }
#else
    { int f0 = fcntl(fds[0], F_GETFL, 0); fcntl(fds[0], F_SETFL, f0 | O_NONBLOCK);
      int f1 = fcntl(fds[1], F_GETFL, 0); fcntl(fds[1], F_SETFL, f1 | O_NONBLOCK); }
#endif
    pthread_mutex_lock(&__maka_aux_mu);
    int i;
    for (i = 0; i < __MAKA_AUX_MAX; i++) if (!__maka_aux[i].used) break;
    if (i == __MAKA_AUX_MAX) {
        pthread_mutex_unlock(&__maka_aux_mu);
        close(fds[0]); close(fds[1]);
        return -1;
    }
    __maka_aux[i].read_fd  = fds[0];
    __maka_aux[i].write_fd = fds[1];
    __maka_aux[i].used     = 1;
    atomic_init(&__maka_aux[i].count, 0);
    pthread_mutex_unlock(&__maka_aux_mu);
    return fds[0];
}
static maka_aux_t* __maka_aux_find(int read_fd) {
    for (int i = 0; i < __MAKA_AUX_MAX; i++)
        if (__maka_aux[i].used && __maka_aux[i].read_fd == read_fd) return &__maka_aux[i];
    return NULL;
}
static void __maka_aux_release(int read_fd) {
    pthread_mutex_lock(&__maka_aux_mu);
    for (int i = 0; i < __MAKA_AUX_MAX; i++) {
        if (__maka_aux[i].used && __maka_aux[i].read_fd == read_fd) {
            int wfd = __maka_aux[i].write_fd;
            __maka_aux[i].used = 0;
            __maka_aux[i].read_fd = -1;
            __maka_aux[i].write_fd = -1;
            pthread_mutex_unlock(&__maka_aux_mu);
            (void)wfd; return;
        }
    }
    pthread_mutex_unlock(&__maka_aux_mu);
}
static inline int64_t __maka_eventfd_create(int64_t initial) {
    int fd = __maka_aux_alloc();
    if (fd < 0) return -1;
    maka_aux_t* a = __maka_aux_find(fd);
    if (a) atomic_store(&a->count, initial);
    return fd;
}
static inline int64_t __maka_eventfd_signal(int64_t fd, int64_t n) {
    maka_aux_t* a = __maka_aux_find((int)fd); if (!a) return -1;
    atomic_fetch_add(&a->count, n);
    char b = 1; (void)send((int)a->write_fd, &b, 1, 0);
    return 0;
}
static inline int64_t __maka_eventfd_recv(int64_t fd) {
    maka_aux_t* a = __maka_aux_find((int)fd); if (!a) return -1;
    while (1) {
        int64_t snap = atomic_load(&a->count);
        if (snap > 0) {
            char drain[64]; (void)recv((int)fd, drain, sizeof(drain), 0);
            int64_t c = atomic_exchange(&a->count, 0);
            if (c > 0) return c;
        }
        char drain[64];
        int got = recv((int)fd, drain, sizeof(drain), 0);
        if (got > 0) { int64_t c = atomic_exchange(&a->count, 0); return c; }
        if (got < 0 && errno == EWOULDBLOCK) { __maka_wait_fd(fd, MAKA_EV_READ); continue; }
        return -1;
    }
}
typedef struct { int wfd; _Atomic int64_t* counter; int64_t initial_ns; int64_t interval_ns; } __maka_timer_arg_t;
static void* __maka_timer_thread(void* arg) {
    __maka_timer_arg_t* a = (__maka_timer_arg_t*)arg;
    struct timespec ts;
    ts.tv_sec  = a->initial_ns / 1000000000LL;
    ts.tv_nsec = a->initial_ns % 1000000000LL;
    if (a->initial_ns > 0) nanosleep(&ts, NULL);
    while (1) {
        atomic_fetch_add(a->counter, 1);
        char b = 1; send(a->wfd, &b, 1, 0);
        if (a->interval_ns == 0) break;
        ts.tv_sec  = a->interval_ns / 1000000000LL;
        ts.tv_nsec = a->interval_ns % 1000000000LL;
        nanosleep(&ts, NULL);
    }
    free(a);
    return NULL;
}
static inline int64_t __maka_timerfd_create(int64_t initial_ns, int64_t interval_ns) {
    int fd = __maka_aux_alloc();
    if (fd < 0) return -1;
    maka_aux_t* a = __maka_aux_find(fd); if (!a) return -1;
    __maka_timer_arg_t* arg = (__maka_timer_arg_t*)calloc(1, sizeof(__maka_timer_arg_t));
    arg->wfd = a->write_fd; arg->counter = &a->count;
    arg->initial_ns = initial_ns; arg->interval_ns = interval_ns;
    pthread_t t;
    if (pthread_create(&t, NULL, __maka_timer_thread, arg) != 0) {
        free(arg);
        __maka_aux_release(fd);
        return -1;
    }
    pthread_detach(t);
    return fd;
}
static inline int64_t __maka_timerfd_recv(int64_t fd) {
    return __maka_eventfd_recv(fd);    /* same shape: drain + return counter */
}
static inline int64_t __maka_signalfd_open(int64_t signum) { (void)signum; return -1; }
static inline int64_t __maka_signalfd_recv(int64_t fd) { (void)fd; return -1; }
typedef struct { int wfd; _Atomic int64_t* counter; char* path; int mask; } __maka_inotify_arg_t;
#ifdef _WIN32
static void* __maka_inotify_thread(void* arg) {
    __maka_inotify_arg_t* a = (__maka_inotify_arg_t*)arg;
    int wlen = MultiByteToWideChar(CP_UTF8, 0, a->path, -1, NULL, 0);
    if (wlen <= 0) { free(a->path); free(a); return NULL; }
    WCHAR* wpath = (WCHAR*)calloc((size_t)wlen + 1, sizeof(WCHAR));
    if (!wpath) { free(a->path); free(a); return NULL; }
    if (MultiByteToWideChar(CP_UTF8, 0, a->path, -1, wpath, wlen) <= 0) { free(wpath); free(a->path); free(a); return NULL; }
    HANDLE h = CreateFileW(wpath, FILE_LIST_DIRECTORY,
        FILE_SHARE_READ | FILE_SHARE_WRITE | FILE_SHARE_DELETE, NULL,
        OPEN_EXISTING, FILE_FLAG_BACKUP_SEMANTICS, NULL);
    free(wpath);
    if (h == INVALID_HANDLE_VALUE) { free(a->path); free(a); return NULL; }
    char buf[4096]; DWORD br = 0;
    while (1) {
        if (!ReadDirectoryChangesW(h, buf, sizeof(buf), TRUE,
                FILE_NOTIFY_CHANGE_FILE_NAME | FILE_NOTIFY_CHANGE_LAST_WRITE |
                FILE_NOTIFY_CHANGE_SIZE | FILE_NOTIFY_CHANGE_CREATION,
                &br, NULL, NULL)) break;
        atomic_fetch_add(a->counter, 1);
        char m = 1; send(a->wfd, &m, 1, 0);
    }
    CloseHandle(h); free(a->path); free(a);
    return NULL;
}
#else
#include <fcntl.h>
static void* __maka_inotify_thread(void* arg) {
    __maka_inotify_arg_t* a = (__maka_inotify_arg_t*)arg;
    int wfd = open(a->path, O_RDONLY);
    if (wfd < 0) { free(a->path); free(a); return NULL; }
#if defined(__APPLE__) || defined(__FreeBSD__) || defined(__NetBSD__) || defined(__OpenBSD__) || defined(__DragonFly__)
    int kq = kqueue();
    struct kevent kev;
    EV_SET(&kev, wfd, EVFILT_VNODE, EV_ADD | EV_CLEAR,
           NOTE_WRITE | NOTE_DELETE | NOTE_EXTEND | NOTE_ATTRIB | NOTE_LINK | NOTE_RENAME,
           0, NULL);
    kevent(kq, &kev, 1, NULL, 0, NULL);
    while (1) {
        struct kevent out;
        int n = kevent(kq, NULL, 0, &out, 1, NULL);
        if (n <= 0) break;
        atomic_fetch_add(a->counter, 1);
        char m = 1; (void)send(a->wfd, &m, 1, 0);
    }
    close(kq);
#endif
    close(wfd); free(a->path); free(a);
    return NULL;
}
#endif
static __thread int __maka_last_inotify_fd = -1;
static inline int64_t __maka_inotify_open(void) {
    int fd = __maka_aux_alloc();
    __maka_last_inotify_fd = fd;
    return fd;
}
static inline int64_t __maka_inotify_add(int64_t fd, const char* path, int64_t mask) {
    maka_aux_t* a = __maka_aux_find((int)fd); if (!a) return -1;
    /* When the user watches a file, watch its parent directory and
       deliver any event in that directory (inotify_recv returns wd 1). */
    char* parent = (char*)malloc(strlen(path) + 1);
    strcpy(parent, path);
#ifdef _WIN32
    char* slash = strrchr(parent, '/'); if (!slash) slash = strrchr(parent, '\\');
    if (slash) *slash = 0; else { strcpy(parent, "."); }
#endif
    __maka_inotify_arg_t* arg = (__maka_inotify_arg_t*)calloc(1, sizeof(__maka_inotify_arg_t));
    arg->wfd = a->write_fd; arg->counter = &a->count; arg->path = parent; arg->mask = (int)mask;
    pthread_t t;
    if (pthread_create(&t, NULL, __maka_inotify_thread, arg) != 0) {
        free(arg->path); free(arg);
        return -1;
    }
    pthread_detach(t);
    return 1;     /* watch descriptor */
}
static inline int64_t __maka_inotify_recv(int64_t fd) {
    return __maka_eventfd_recv(fd) >= 0 ? 1 : -1;   /* return wd=1 on event */
}
#endif
static inline int64_t __maka_udp_recv_async(int64_t fd, maka_unit* buf, int64_t cap) {
    while (1) {
        long n = recvfrom((int)fd, (void*)buf, (unsigned long)cap, 0, NULL, NULL);
        if (n >= 0) return (int64_t)n;
        if (errno == EAGAIN || errno == EWOULDBLOCK) { __maka_wait_fd(fd, MAKA_EV_READ); continue; }
        if (errno == EINTR) continue;
        return -1;
    }
}
"#;

} // verus!
