//! C text of the hosted runtime, in emission order.

use vstd::prelude::*;

verus! {

/// Feature-test macros, system headers and the earliest Windows shims.
pub const PLATFORM_HEADERS: &'static str = r#"#ifdef __APPLE__
#define _DARWIN_C_SOURCE 1
#define _POSIX_C_SOURCE 200809L
#define _XOPEN_SOURCE 700
#elif defined(_WIN32)
#define _XOPEN_SOURCE 600
#else
#ifndef _GNU_SOURCE
#define _GNU_SOURCE 1
#endif
#endif
#include <stdio.h>
#include <stdlib.h>
#include <stdint.h>
#include <stdbool.h>
#include <string.h>
#include <wchar.h>
#include <stdarg.h>
#ifndef _WIN32
#include <unistd.h>
#include <fcntl.h>
#include <sys/types.h>
#include <sys/wait.h>
extern ssize_t send(int, const void*, size_t, int);
extern ssize_t recv(int, void*, size_t, int);
#endif
#ifdef _WIN32
#define WIN32_LEAN_AND_MEAN
#define NOMINMAX
#include <winsock2.h>
#include <ws2tcpip.h>
#include <windows.h>
#include <io.h>
#include <fcntl.h>
#ifdef max
#undef max
#endif
#ifdef min
#undef min
#endif
typedef SSIZE_T ssize_t;
static inline int pipe(int* fds) {
    SOCKET listener = socket(AF_INET, SOCK_STREAM, 0);
    if (listener == INVALID_SOCKET) return -1;
    struct sockaddr_in addr; memset(&addr, 0, sizeof(addr));
    addr.sin_family = AF_INET;
    addr.sin_addr.s_addr = htonl(INADDR_LOOPBACK);
    addr.sin_port = 0;
    if (bind(listener, (struct sockaddr*)&addr, sizeof(addr)) != 0) { closesocket(listener); return -1; }
    int alen = sizeof(addr);
    if (getsockname(listener, (struct sockaddr*)&addr, &alen) != 0) { closesocket(listener); return -1; }
    if (listen(listener, 1) != 0) { closesocket(listener); return -1; }
    SOCKET writer = socket(AF_INET, SOCK_STREAM, 0);
    if (writer == INVALID_SOCKET) { closesocket(listener); return -1; }
    u_long nb = 1; ioctlsocket(writer, FIONBIO, &nb);
    int r = connect(writer, (struct sockaddr*)&addr, sizeof(addr));
    if (r != 0 && WSAGetLastError() != WSAEWOULDBLOCK) { closesocket(listener); closesocket(writer); return -1; }
    /* Wait up to ~2 seconds for accept to fire.  Loopback should be ms-fast. */
    WSAPOLLFD lpf; lpf.fd = listener; lpf.events = POLLRDNORM; lpf.revents = 0;
    if (WSAPoll(&lpf, 1, 2000) <= 0) { closesocket(listener); closesocket(writer); return -1; }
    SOCKET reader = accept(listener, NULL, NULL);
    closesocket(listener);
    if (reader == INVALID_SOCKET) { closesocket(writer); return -1; }
    nb = 0; ioctlsocket(writer, FIONBIO, &nb);
    fds[0] = (int)reader;
    fds[1] = (int)writer;
    return 0;
}
static inline long getline(char** buf, size_t* cap, FILE* f) {
    (void)cap; if (!*buf) *buf = (char*)malloc(4096);
    if (!fgets(*buf, 4096, f)) return -1;
    return (long)strlen(*buf);
}
#endif
"#;

/// Base types, panics, logging, string building and the forward declarations that
/// later sections rely on.
pub const BASE_RUNTIME: &'static str = r#"typedef int64_t maka_int;
typedef double maka_float;
typedef uint8_t maka_char;
typedef struct { int dummy; } maka_unit;
static maka_unit MAKA_UNIT = {0};
static void maka_panic(const char* msg) { fprintf(stderr, "panic: %s\n", msg); abort(); }
static inline maka_int maka_check_idx(maka_int i, maka_int len, const char* msg){ if(i<0||i>=len) maka_panic(msg); return i; }
static void maka_log_int(maka_int v) { printf("%lld\n", (long long)v); }
static void maka_log_float(maka_float v) { printf("%g\n", v); }
static void maka_log_bool(bool v) { puts(v?"true":"false"); }
static void maka_log_char(maka_char v) { putchar((int)v); putchar('\n'); }
static void maka_log_str(const char* v) { puts(v); }
static void maka_log_ptr(const void* v) { if (v) printf("<ptr %p>\n", v); else puts("null"); }
static char* __maka_str_concat(const char* a, const char* b) { size_t la=a?strlen(a):0, lb=b?strlen(b):0; char* r=(char*)malloc(la+lb+1); if(a)memcpy(r,a,la); if(b)memcpy(r+la,b,lb); r[la+lb]=0; return r; }
static char* __maka_str_concat_freel(char* a, const char* b) { char* r = __maka_str_concat(a, b); free(a); return r; }
static char* __maka_str_concat_freer(const char* a, char* b) { char* r = __maka_str_concat(a, b); free(b); return r; }
static char* __maka_str_concat_freeb(char* a, char* b) { char* r = __maka_str_concat(a, b); free(a); free(b); return r; }
static char* __maka_int_to_str(maka_int n)   { char buf[32]; snprintf(buf, sizeof(buf), "%lld", (long long)n); size_t L=strlen(buf); char* r=(char*)malloc(L+1); memcpy(r,buf,L+1); return r; }
static const char* __maka_bool_to_str(bool b) { return b ? "true" : "false"; }
static char* __maka_float_to_str(maka_float v){ char buf[40]; snprintf(buf, sizeof(buf), "%g", v);             size_t L=strlen(buf); char* r=(char*)malloc(L+1); memcpy(r,buf,L+1); return r; }
static char* __maka_char_to_str(maka_char c)  { char* r=(char*)malloc(2); r[0]=(char)c; r[1]=0; return r; }
static char* __maka_format1(const char* fmt, ...) { va_list ap; va_start(ap, fmt); va_list ap2; va_copy(ap2, ap); int n = vsnprintf((char*)0, 0, fmt, ap); va_end(ap); char* r = (char*)malloc((size_t)(n < 0 ? 0 : n) + 1); vsnprintf(r, (size_t)(n < 0 ? 0 : n) + 1, fmt, ap2); va_end(ap2); return r; }
static char* __maka_read_line(void) { char* buf=NULL; size_t cap=0; ssize_t n=getline(&buf,&cap,stdin); if(n<0){ free(buf); return NULL; } if(n>0 && buf[n-1]=='\n') buf[n-1]=0; return buf; }
static maka_int __maka_read_int(void) { long long v=0; if(scanf("%lld", &v)!=1) maka_panic("read_int: malformed input"); return (maka_int)v; }
maka_int maka_atomic_load_i64(maka_int* p) { return __atomic_load_n(p, __ATOMIC_SEQ_CST); }
void maka_atomic_store_i64(maka_int* p, maka_int v) { __atomic_store_n(p, v, __ATOMIC_SEQ_CST); }
maka_int maka_atomic_fetch_add_i64(maka_int* p, maka_int d) { return __atomic_fetch_add(p, d, __ATOMIC_SEQ_CST); }
maka_int maka_atomic_fetch_sub_i64(maka_int* p, maka_int d) { return __atomic_fetch_sub(p, d, __ATOMIC_SEQ_CST); }
void maka_fence(maka_int ord) { (void)ord; __atomic_thread_fence(__ATOMIC_SEQ_CST); }
static void __maka_fd_arm(int fd, int events_mask);
static void __maka_fd_reg_drop(int fd);
struct maka_fiber_s;
typedef struct maka_fiber_s maka_fiber_t;
extern __thread struct maka_fiber_s* maka_fd_waiters;
extern __thread int maka_sched_inited;
static void __maka_ready_enqueue(struct maka_fiber_s* f);
struct maka_sched_state_s;
static inline void __maka_sched_state_ref(struct maka_sched_state_s* s);
static inline void __maka_sched_state_unref(struct maka_sched_state_s* s);
static inline struct maka_sched_state_s* __maka_sched_validate_and_ref(struct maka_sched_state_s* candidate);
static inline struct maka_sched_state_s* __maka_sched_validate_and_ref_epoch(struct maka_sched_state_s* candidate, int64_t expected_epoch);
const char** __maka_rt_file_listdir(const char* path, int64_t* out_n);
const char** __maka_rt_str_split(const char* s, const char* sep, int64_t* out_n);
"#;

/// Windows shims for the POSIX calls used below, or the POSIX headers themselves.
pub const PLATFORM_COMPAT: &'static str = r#"#ifdef _WIN32
#include <stdatomic.h>
#include <pthread.h>
#define _SC_NPROCESSORS_ONLN 84
static inline long sysconf(int name) {
    if (name == _SC_NPROCESSORS_ONLN) { SYSTEM_INFO si; GetSystemInfo(&si); return (long)si.dwNumberOfProcessors; }
    return -1;
}
#define PROT_NONE 0
#define PROT_READ 1
#define PROT_WRITE 2
#define MAP_PRIVATE 0
#define MAP_ANONYMOUS 0
#define MAP_FAILED ((void*)-1)
static inline void* mmap(void* a, size_t l, int p, int f, int fd, long off) {
    (void)a; (void)f; (void)fd; (void)off;
    void* r = VirtualAlloc(NULL, l, MEM_RESERVE, PAGE_NOACCESS);
    if (!r) return MAP_FAILED;
    if (p != PROT_NONE) {
        DWORD prot = PAGE_NOACCESS;
        if ((p & PROT_READ) && (p & PROT_WRITE)) prot = PAGE_READWRITE;
        else if (p & PROT_READ) prot = PAGE_READONLY;
        if (!VirtualAlloc(r, l, MEM_COMMIT, prot)) { VirtualFree(r, 0, MEM_RELEASE); return MAP_FAILED; }
    }
    return r;
}
static inline int munmap(void* a, size_t l) { (void)l; VirtualFree(a, 0, MEM_RELEASE); return 0; }
static inline int mprotect(void* a, size_t l, int p) {
    DWORD prot = PAGE_NOACCESS;
    if ((p & PROT_READ) && (p & PROT_WRITE)) prot = PAGE_READWRITE;
    else if (p & PROT_READ) prot = PAGE_READONLY;
    void* r = VirtualAlloc(a, l, MEM_COMMIT, prot);
    return r ? 0 : -1;
}
typedef struct { void* fiber; struct { void* ss_sp; size_t ss_size; } uc_stack; void* uc_link; } ucontext_t;
static __thread int __maka_win_fiber_inited = 0;
static inline void __maka_win_fiber_init(void) {
    if (__maka_win_fiber_inited) return;
    __maka_win_fiber_inited = 1;
    ConvertThreadToFiber(NULL);
}
static inline int getcontext(ucontext_t* c) { __maka_win_fiber_init(); c->fiber = GetCurrentFiber(); return 0; }
static inline void makecontext(ucontext_t* c, void (*f)(void), int n) {
    (void)n; __maka_win_fiber_init();
    c->fiber = CreateFiber(c->uc_stack.ss_size ? c->uc_stack.ss_size : 0, (LPFIBER_START_ROUTINE)(void*)f, NULL);
}
static inline int swapcontext(ucontext_t* save, ucontext_t* restore) {
    __maka_win_fiber_init();
    save->fiber = GetCurrentFiber();
    SwitchToFiber(restore->fiber);
    return 0;
}
#define F_GETFL 3
#define F_SETFL 4
#ifndef O_NONBLOCK
#define O_NONBLOCK 0x4000
#endif
static inline int fcntl(int fd, int cmd, ...) {
    if (cmd == F_GETFL) return 0;
    if (cmd == F_SETFL) {
        u_long nb = 1;
        ioctlsocket((SOCKET)fd, FIONBIO, &nb);
        return 0;
    }
    return -1;
}
#include <errno.h>
#undef EAGAIN
#undef EWOULDBLOCK
#undef EINTR
#undef EINPROGRESS
#define EAGAIN      WSAEWOULDBLOCK
#define EWOULDBLOCK WSAEWOULDBLOCK
#define EINTR       WSAEINTR
#define EINPROGRESS WSAEWOULDBLOCK
#undef errno
#define errno (WSAGetLastError())
static inline SSIZE_T __maka_winsock_read(int fd, void* buf, size_t n) {
    int r = recv((SOCKET)fd, (char*)buf, (int)n, 0);
    if (r >= 0) return r;
    if (WSAGetLastError() == WSAENOTSOCK) return (SSIZE_T)_read(fd, buf, (unsigned)n);
    return r;
}
static inline SSIZE_T __maka_winsock_write(int fd, const void* buf, size_t n) {
    int r = send((SOCKET)fd, (const char*)buf, (int)n, 0);
    if (r >= 0) return r;
    if (WSAGetLastError() == WSAENOTSOCK) return (SSIZE_T)_write(fd, buf, (unsigned)n);
    return r;
}
static int __maka_winsock_close(int fd);
#define read  __maka_winsock_read
#define write __maka_winsock_write
#define close __maka_winsock_close
static _Atomic int __maka_wsa_inited = 0;
static inline void __maka_wsa_init(void) {
    int e = 0;
    if (!atomic_compare_exchange_strong(&__maka_wsa_inited, &e, 1)) return;
    WSADATA wsa;
    WSAStartup(MAKEWORD(2, 2), &wsa);
}
__attribute__((constructor)) static void __maka_wsa_ctor(void) { __maka_wsa_init(); }
__attribute__((constructor)) static void __maka_bin_stdio(void) {
    _setmode(_fileno(stdin),  _O_BINARY);
    _setmode(_fileno(stdout), _O_BINARY);
    _setmode(_fileno(stderr), _O_BINARY);
    setvbuf(stdout, NULL, _IONBF, 0);
    setvbuf(stderr, NULL, _IONBF, 0);
#ifdef _WIN32
    timeBeginPeriod(1);
#endif
}
static inline ssize_t pread (int fd, void* buf, size_t n, int64_t off) {
    HANDLE h = (HANDLE)_get_osfhandle(fd);
    if (h == INVALID_HANDLE_VALUE) return -1;
    size_t total = 0;
    while (total < n) {
        size_t remain = n - total;
        DWORD chunk = remain > 0x40000000u ? 0x40000000u : (DWORD)remain;
        int64_t pos = off + (int64_t)total;
        OVERLAPPED ov = {0};
        ov.Offset     = (DWORD)((uint64_t)pos & 0xFFFFFFFFull);
        ov.OffsetHigh = (DWORD)((uint64_t)pos >> 32);
        DWORD got = 0;
        if (!ReadFile(h, (char*)buf + total, chunk, &got, &ov)) {
            DWORD e = GetLastError();
            if (e == ERROR_HANDLE_EOF) return (ssize_t)total;
            return total == 0 ? -1 : (ssize_t)total;
        }
        if (got == 0) return (ssize_t)total;  /* EOF */
        total += got;
        if (got < chunk) break;
    }
    return (ssize_t)total;
}
static inline ssize_t pwrite(int fd, const void* buf, size_t n, int64_t off) {
    HANDLE h = (HANDLE)_get_osfhandle(fd);
    if (h == INVALID_HANDLE_VALUE) return -1;
    size_t total = 0;
    while (total < n) {
        size_t remain = n - total;
        DWORD chunk = remain > 0x40000000u ? 0x40000000u : (DWORD)remain;
        int64_t pos = off + (int64_t)total;
        OVERLAPPED ov = {0};
        ov.Offset     = (DWORD)((uint64_t)pos & 0xFFFFFFFFull);
        ov.OffsetHigh = (DWORD)((uint64_t)pos >> 32);
        DWORD wrote = 0;
        if (!WriteFile(h, (const char*)buf + total, chunk, &wrote, &ov)) {
            return total == 0 ? -1 : (ssize_t)total;
        }
        if (wrote == 0) break;
        total += wrote;
        if (wrote < chunk) break;
    }
    return (ssize_t)total;
}
#ifndef CLOCK_MONOTONIC
#define CLOCK_MONOTONIC 1
#endif
#else
#include <pthread.h>
#include <stdatomic.h>
#include <ucontext.h>
#endif
maka_unit* maka_mutex_new(void) { pthread_mutex_t* m = (pthread_mutex_t*)malloc(sizeof(pthread_mutex_t)); pthread_mutex_init(m, NULL); return (maka_unit*)m; }
void maka_mutex_lock(maka_unit* m) { pthread_mutex_lock((pthread_mutex_t*)m); }
void maka_mutex_unlock(maka_unit* m) { pthread_mutex_unlock((pthread_mutex_t*)m); }
void maka_mutex_destroy(maka_unit* m) { pthread_mutex_destroy((pthread_mutex_t*)m); free(m); }
maka_unit* maka_rwlock_new(void) { pthread_rwlock_t* r = (pthread_rwlock_t*)malloc(sizeof(pthread_rwlock_t)); pthread_rwlock_init(r, NULL); return (maka_unit*)r; }
void maka_rwlock_read_lock(maka_unit* r) { pthread_rwlock_rdlock((pthread_rwlock_t*)r); }
void maka_rwlock_write_lock(maka_unit* r) { pthread_rwlock_wrlock((pthread_rwlock_t*)r); }
void maka_rwlock_unlock(maka_unit* r) { pthread_rwlock_unlock((pthread_rwlock_t*)r); }
void maka_rwlock_destroy(maka_unit* r) { pthread_rwlock_destroy((pthread_rwlock_t*)r); free(r); }
#ifdef __APPLE__
#include <os/lock.h>
maka_unit* maka_spinlock_new(void) { os_unfair_lock* s = (os_unfair_lock*)malloc(sizeof(os_unfair_lock)); *s = OS_UNFAIR_LOCK_INIT; return (maka_unit*)s; }
void maka_spinlock_lock(maka_unit* s) { os_unfair_lock_lock((os_unfair_lock*)s); }
void maka_spinlock_unlock(maka_unit* s) { os_unfair_lock_unlock((os_unfair_lock*)s); }
void maka_spinlock_destroy(maka_unit* s) { free(s); }
#else
maka_unit* maka_spinlock_new(void) { pthread_spinlock_t* s = (pthread_spinlock_t*)malloc(sizeof(pthread_spinlock_t)); pthread_spin_init(s, PTHREAD_PROCESS_PRIVATE); return (maka_unit*)s; }
void maka_spinlock_lock(maka_unit* s) { pthread_spin_lock((pthread_spinlock_t*)s); }
void maka_spinlock_unlock(maka_unit* s) { pthread_spin_unlock((pthread_spinlock_t*)s); }
void maka_spinlock_destroy(maka_unit* s) { pthread_spin_destroy((pthread_spinlock_t*)s); free(s); }
#endif
"#;

/// Futex wait and wake, thread yield and raw system calls.
pub const KERNEL_PRIMITIVES: &'static str = r#"#ifdef __linux__
#include <linux/futex.h>
#include <sys/syscall.h>
#include <unistd.h>
#include <sched.h>
static int __maka_futex_wait(const int* addr, int expected) {
    return (int)syscall(SYS_futex, (int*)addr, FUTEX_WAIT, expected, NULL, NULL, 0);
}
static int __maka_futex_wake(const int* addr, int n) {
    return (int)syscall(SYS_futex, (int*)addr, FUTEX_WAKE, n, NULL, NULL, 0);
}
static void __maka_thread_yield(void) { sched_yield(); }
static long __maka_syscall(long n, long a1, long a2, long a3, long a4, long a5, long a6) {
    return syscall(n, a1, a2, a3, a4, a5, a6);
}
#elif defined(_WIN32)
#pragma comment(lib, "Synchronization.lib")
static int __maka_futex_wait(const int* addr, int expected) {
    int local = expected;
    return WaitOnAddress((volatile void*)addr, &local, sizeof(int), INFINITE) ? 0 : -1;
}
static int __maka_futex_wake(const int* addr, int n) {
    if (n <= 1) { WakeByAddressSingle((void*)addr); } else { WakeByAddressAll((void*)addr); }
    return 0;
}
static void __maka_thread_yield(void) { SwitchToThread(); }
static long __maka_syscall(long n, long a1, long a2, long a3, long a4, long a5, long a6) {
    (void)n;(void)a1;(void)a2;(void)a3;(void)a4;(void)a5;(void)a6; return -1;
}
#else
#include <sched.h>
#include <sys/syscall.h>
#include <unistd.h>
static int __maka_futex_wait(const int* addr, int expected) {
    while (__atomic_load_n(addr, __ATOMIC_SEQ_CST) == expected) {
        struct timespec ts = { 0, 1000000 }; nanosleep(&ts, NULL);
    }
    return 0;
}
static int __maka_futex_wake(const int* addr, int n) { (void)addr; (void)n; return 0; }
static void __maka_thread_yield(void) { sched_yield(); }
static long __maka_syscall(long n, long a1, long a2, long a3, long a4, long a5, long a6) {
    return syscall(n, a1, a2, a3, a4, a5, a6);
}
#endif
"#;

/// Integer and byte channels, the 64-bit atomic, and the two slice types that the
/// data-parallel runtime uses.
pub const CHANNELS: &'static str = r#"typedef struct maka_chan_node_t { maka_int v; struct maka_chan_node_t* next; } maka_chan_node_t;
typedef struct { pthread_mutex_t m; pthread_cond_t c; maka_chan_node_t* head; maka_chan_node_t* tail; maka_int count; int closed; int waiters; pthread_cond_t drained_cv; } maka_channel_t;
maka_unit* maka_channel_new(void) { maka_channel_t* ch = (maka_channel_t*)calloc(1, sizeof(maka_channel_t)); pthread_mutex_init(&ch->m, NULL); pthread_cond_init(&ch->c, NULL); pthread_cond_init(&ch->drained_cv, NULL); return (maka_unit*)ch; }
void maka_channel_send(maka_unit* p, maka_int v) { maka_channel_t* ch = (maka_channel_t*)p; maka_chan_node_t* n = (maka_chan_node_t*)malloc(sizeof(maka_chan_node_t)); n->v = v; n->next = NULL; pthread_mutex_lock(&ch->m); if (ch->closed) { free(n); pthread_mutex_unlock(&ch->m); return; } if (ch->tail) ch->tail->next = n; else ch->head = n; ch->tail = n; ch->count++; pthread_cond_signal(&ch->c); pthread_mutex_unlock(&ch->m); }
maka_int maka_channel_recv(maka_unit* p) {
    maka_channel_t* ch = (maka_channel_t*)p;
    pthread_mutex_lock(&ch->m);
    ch->waiters++;
    while (!ch->head && !ch->closed) pthread_cond_wait(&ch->c, &ch->m);
    ch->waiters--;
    if (ch->waiters == 0) pthread_cond_signal(&ch->drained_cv);
    maka_int v = 0;
    if (ch->head) {
        maka_chan_node_t* n = ch->head; ch->head = n->next;
        if (!ch->head) ch->tail = NULL; ch->count--;
        v = n->v; free(n);
    }
    pthread_mutex_unlock(&ch->m);
    return v;
}
void maka_channel_destroy(maka_unit* p) {
    maka_channel_t* ch = (maka_channel_t*)p;
    pthread_mutex_lock(&ch->m);
    ch->closed = 1;
    while (ch->head) { maka_chan_node_t* n = ch->head; ch->head = n->next; free(n); }
    pthread_cond_broadcast(&ch->c);
    while (ch->waiters > 0) pthread_cond_wait(&ch->drained_cv, &ch->m);
    pthread_mutex_unlock(&ch->m);
    pthread_mutex_destroy(&ch->m); pthread_cond_destroy(&ch->c); pthread_cond_destroy(&ch->drained_cv); free(ch);
}
typedef struct maka_bnode_t {
    struct maka_bnode_t* next;
    char data[];
} maka_bnode_t;
typedef struct {
    int item_size;
    pthread_mutex_t m;
    pthread_cond_t  c;
    maka_bnode_t*   head;
    maka_bnode_t*   tail;
    int count;
    int closed;
    int waiters;
    pthread_cond_t drained_cv;
} maka_bchan_t;
maka_unit* maka_chan_bytes_new(int64_t item_size) {
    if (item_size < 0) item_size = 0;
    if (item_size > 0x7fffffffLL) item_size = 0x7fffffffLL;
    maka_bchan_t* c = (maka_bchan_t*)calloc(1, sizeof(maka_bchan_t));
    c->item_size = (int)item_size;
    pthread_mutex_init(&c->m, NULL);
    pthread_cond_init(&c->c, NULL);
    pthread_cond_init(&c->drained_cv, NULL);
    return (maka_unit*)c;
}
void maka_chan_bytes_send(maka_unit* p, maka_unit* src) {
    maka_bchan_t* c = (maka_bchan_t*)p;
    maka_bnode_t* n = (maka_bnode_t*)malloc(sizeof(maka_bnode_t) + (size_t)c->item_size);
    memcpy(n->data, (void*)src, (size_t)c->item_size);
    n->next = NULL;
    pthread_mutex_lock(&c->m);
    if (c->closed) { free(n); pthread_mutex_unlock(&c->m); return; }
    if (c->tail) c->tail->next = n; else c->head = n;
    c->tail = n; c->count++;
    pthread_cond_signal(&c->c);
    pthread_mutex_unlock(&c->m);
}
void maka_chan_bytes_recv(maka_unit* p, maka_unit* dst);
int64_t maka_chan_bytes_count(maka_unit* p) {
    maka_bchan_t* c = (maka_bchan_t*)p;
    pthread_mutex_lock(&c->m);
    int64_t v = c->count;
    pthread_mutex_unlock(&c->m);
    return v;
}
void maka_chan_bytes_close(maka_unit* p) {
    maka_bchan_t* c = (maka_bchan_t*)p;
    pthread_mutex_lock(&c->m);
    c->closed = 1;
    pthread_cond_broadcast(&c->c);
    pthread_mutex_unlock(&c->m);
}
void maka_chan_bytes_destroy(maka_unit* p) {
    maka_bchan_t* c = (maka_bchan_t*)p;
    pthread_mutex_lock(&c->m);
    c->closed = 1;
    while (c->head) { maka_bnode_t* n = c->head; c->head = n->next; free(n); }
    pthread_cond_broadcast(&c->c);
    while (c->waiters > 0) pthread_cond_wait(&c->drained_cv, &c->m);
    pthread_mutex_unlock(&c->m);
    pthread_mutex_destroy(&c->m); pthread_cond_destroy(&c->c); pthread_cond_destroy(&c->drained_cv);
    free(c);
}
maka_unit* maka_atomic_i64_new(int64_t v) {
    _Atomic int64_t* a = (_Atomic int64_t*)malloc(sizeof(_Atomic int64_t));
    atomic_init(a, v);
    return (maka_unit*)a;
}
int64_t maka_atomic_i64_load(maka_unit* a) { return atomic_load((_Atomic int64_t*)a); }
void maka_atomic_i64_store(maka_unit* a, int64_t v) { atomic_store((_Atomic int64_t*)a, v); }
int64_t maka_atomic_i64_add(maka_unit* a, int64_t d) { return atomic_fetch_add((_Atomic int64_t*)a, d); }
int64_t maka_atomic_i64_cas(maka_unit* a, int64_t expected, int64_t desired) {
    int64_t e = expected;
    return atomic_compare_exchange_strong((_Atomic int64_t*)a, &e, desired) ? 1 : 0;
}
void maka_atomic_i64_destroy(maka_unit* a) { free(a); }
typedef struct Slice_maka_int { maka_int* ptr; maka_int len; } Slice_maka_int;
typedef struct Slice_maka_float { maka_float* ptr; maka_int len; } Slice_maka_float;
"#;

/// The `Thread` handle and the kernel-thread tier.
pub const THREADS: &'static str = r#"#include <unistd.h>
#include <time.h>
#include <errno.h>
#include <signal.h>
#include <fcntl.h>
#ifndef _WIN32
#include <sys/types.h>
#include <sys/stat.h>
#endif
typedef struct Thread {
    pthread_t       handle;
    pthread_mutex_t done_mutex;
    pthread_cond_t  done_cond;
    int             done_flag;       /* set to 1 when work finishes */
    int64_t         result;          /* type-erased return value */
    int             is_job;          /* 1 for job-pool work item */
    int             is_fiber;        /* 1 for cooperative fiber */
    _Atomic int     detached;        /* 1 if user opted out of join (informational) */
    _Atomic int     is_failed;
    _Atomic int     cancel_requested;
    _Atomic int     aio_in_flight;
    _Atomic int     refcount;
    _Atomic(void*)  home_sched;
    _Atomic int64_t home_sched_epoch;
} Thread;
static inline void __maka_thread_ref(Thread* t) {
    if (t) atomic_fetch_add(&t->refcount, 1);
}
static inline void __maka_thread_unref(Thread* t) {
    if (!t) return;
    if (atomic_fetch_sub(&t->refcount, 1) == 1) {
        pthread_mutex_destroy(&t->done_mutex);
        pthread_cond_destroy(&t->done_cond);
        free(t);
    }
}
static inline Thread* __maka_thread_new(void) {
    Thread* t = (Thread*)calloc(1, sizeof(Thread));
    pthread_mutex_init(&t->done_mutex, NULL);
    pthread_cond_init (&t->done_cond,  NULL);
    atomic_init(&t->refcount, 2);
    return t;
}
#ifdef _WIN32
static inline WCHAR* __maka_path_to_w(const char* path) {
    int wlen = MultiByteToWideChar(CP_UTF8, 0, path, -1, NULL, 0);
    if (wlen <= 0) return NULL;
    WCHAR* w = (WCHAR*)calloc((size_t)wlen, sizeof(WCHAR));
    if (!w) return NULL;
    if (MultiByteToWideChar(CP_UTF8, 0, path, -1, w, wlen) <= 0) { free(w); return NULL; }
    return w;
}
#endif
static inline int __maka_spawn_pthread(pthread_t* h, void* (*entry)(void*), void* arg, Thread* completion) {
    int rc = pthread_create(h, NULL, entry, arg);
    if (rc != 0 && completion) {
        atomic_store(&completion->is_failed, 1);
        pthread_mutex_lock(&completion->done_mutex);
        completion->done_flag = 1;
        pthread_cond_broadcast(&completion->done_cond);
        pthread_mutex_unlock(&completion->done_mutex);
        __maka_thread_unref(completion);  /* runner ref */
    }
    return rc;
}
typedef struct { void* code; void* env; } __maka_closure_fat;
typedef struct __maka_handle_args_s { void* code; void* env; Thread* h; } __maka_handle_args_t;
static void* __maka_handle_entry(void* arg) {
    __maka_handle_args_t* a = (__maka_handle_args_t*)arg;
    void (*code)(void*) = (void (*)(void*))a->code;
    code(a->env);
    pthread_mutex_lock(&a->h->done_mutex);
    a->h->done_flag = 1;
    pthread_cond_broadcast(&a->h->done_cond);
    pthread_mutex_unlock(&a->h->done_mutex);
    __maka_thread_unref(a->h);
    free(a->env);
    free(a);
    return NULL;
}
maka_unit* __maka_spawn_thread(void* code, void* env) {
    Thread* t = __maka_thread_new();
    __maka_handle_args_t* a = (__maka_handle_args_t*)malloc(sizeof(__maka_handle_args_t));
    a->code = code; a->env = env; a->h = t;
    __maka_spawn_pthread(&t->handle, __maka_handle_entry, a, t);
    return (maka_unit*)t;
}
"#;

/// Fibers, their stacks, and the scheduler state of each thread.
pub const FIBER_STATE: &'static str = r#"#ifndef _WIN32
#include <sys/mman.h>
#endif
#define MAKA_FIBER_STACK_SIZE (64 * 1024)
#define MAKA_FIBER_SLAB_RESERVE (1024 * 1024) /* 1 MB VM per fiber */
#define MAKA_FIBER_GUARD_PAGE 4096
typedef struct maka_slab_s {
    void* base;                  /* mmap base (guard page at top) */
    void* stack_top;             /* start of usable stack region */
    struct maka_slab_s* next;    /* free-list link */
} maka_slab_t;
static __thread maka_slab_t* maka_slab_pool = NULL;
static maka_slab_t* __maka_slab_alloc(void) {
    if (maka_slab_pool) {
        maka_slab_t* s = maka_slab_pool;
        maka_slab_pool = s->next; s->next = NULL;
        return s;
    }
#ifdef _WIN32
    maka_slab_t* s = (maka_slab_t*)calloc(1, sizeof(maka_slab_t));
    return s; /* may be NULL on OOM; callers must handle */
#else
    /* mmap PROT_NONE for the full VM range, then mprotect the usable
       region read/write.  Bottom page stays PROT_NONE as the stack
       overflow guard. */
    void* base = mmap(NULL, MAKA_FIBER_SLAB_RESERVE, PROT_NONE,
                      MAP_PRIVATE | MAP_ANONYMOUS, -1, 0);
    if (base == MAP_FAILED) return NULL;
    /* Commit only the top MAKA_FIBER_STACK_SIZE bytes; leave the bottom
       MAKA_FIBER_SLAB_RESERVE - MAKA_FIBER_STACK_SIZE as PROT_NONE so a
       stack-overflowing fiber segfaults cleanly instead of trampling
       another fiber's slab. */
    void* commit_start = (char*)base + MAKA_FIBER_SLAB_RESERVE - MAKA_FIBER_STACK_SIZE;
    if (mprotect(commit_start, MAKA_FIBER_STACK_SIZE, PROT_READ | PROT_WRITE) != 0) {
        munmap(base, MAKA_FIBER_SLAB_RESERVE);
        return NULL;
    }
    maka_slab_t* s = (maka_slab_t*)malloc(sizeof(maka_slab_t));
    if (!s) { munmap(base, MAKA_FIBER_SLAB_RESERVE); return NULL; }
    s->base = base;
    s->stack_top = commit_start;
    s->next = NULL;
    return s;
#endif
}
static void __maka_slab_free(maka_slab_t* s) {
    /* Return to the pool — never munmap during the program's lifetime.
       This is what makes spawn cheap in the steady state. */
    s->next = maka_slab_pool;
    maka_slab_pool = s;
}
struct maka_sched_state_s;
typedef struct maka_fiber_s {
    ucontext_t ctx;
    maka_slab_t* slab;    /* mmap'd 1 MB slab; stack lives at the top */
    int   state;          /* 0=ready 1=running 2=blocked-fiber 3=sleep 4=done */
    void  (*entry_code)(void*);
    void* entry_env;
    Thread* completion;   /* the Thread handle returned to user */
    int64_t wake_at_ns;
    int   waiting_fd;     /* fd if blocked on IO; -1 otherwise */
    int   waiting_events; /* EPOLLIN/EPOLLOUT bits this waiter is interested in */
    int64_t wait_deadline_ns; /* 0 = no deadline; otherwise wake-by-this time */
    int   wait_timed_out; /* set by scheduler when deadline expires */
    _Atomic(void*) home_sched;
    _Atomic int64_t home_sched_epoch;  /* snapshot of home_sched->epoch at spawn */
    _Atomic int in_queue;
    struct maka_fiber_s* next;        /* ready / sleep / fd-wait queue link */
    struct maka_fiber_s* waiters;     /* fibers blocked on this fiber */
    struct maka_fiber_s* next_waiter; /* waiter list link */
} maka_fiber_t;
#ifdef _WIN32
static int __maka_winsock_close(int fd) {
    if (maka_sched_inited) {
        maka_fiber_t** prev = &maka_fd_waiters;
        while (*prev) {
            maka_fiber_t* w = *prev;
            if (w->waiting_fd == fd) {
                *prev = w->next; w->next = NULL;
                w->waiting_fd = -1; w->waiting_events = 0;
                w->wait_deadline_ns = 0; w->wait_timed_out = 0;
                __maka_ready_enqueue(w);
            } else {
                prev = &(*prev)->next;
            }
        }
    }
    __maka_fd_arm(fd, 0);
    __maka_fd_reg_drop(fd);
    if (closesocket((SOCKET)fd) == 0) return 0;
    if (WSAGetLastError() == WSAENOTSOCK) return _close(fd);
    return -1;
}
#endif
typedef struct maka_cancel_req_s {
    Thread* target;
    struct maka_cancel_req_s* next;
} maka_cancel_req_t;
typedef struct maka_close_req_s {
    int closed_fd;
    struct maka_close_req_s* next;
} maka_close_req_t;
typedef struct maka_sched_state_s {
    pthread_mutex_t remote_mu;
    maka_fiber_t* remote_wake_head;
    maka_cancel_req_t* remote_cancel_head;
    maka_close_req_t* remote_close_head;
    int wake_pipe_r;
    int wake_pipe_w;
    _Atomic int refcount;
    int64_t epoch;
} maka_sched_state_t;
static _Atomic int64_t __maka_sched_epoch_ctr = 1;
static __thread maka_sched_state_t* maka_sched_state = NULL;
static __thread ucontext_t maka_sched_ctx;
static __thread maka_fiber_t* maka_current_fiber = NULL;
static __thread maka_fiber_t* maka_ready_head = NULL;
static __thread maka_fiber_t* maka_ready_tail = NULL;
static __thread maka_fiber_t* maka_sleep_head = NULL;
__thread int maka_sched_inited = 0;
typedef struct maka_park_req_s {
    pthread_mutex_t* lock;
    maka_fiber_t**   head;
    int (*should_park)(void*);
    void* arg;
    _Atomic int*    inflight;
    pthread_cond_t* drained_cv;
} maka_park_req_t;
static __thread maka_park_req_t* maka_pending_park = NULL;
struct maka_sched_state_s;
typedef struct maka_sched_tick_s {
    struct maka_sched_state_s* owner;  /* the sched_state this tick belongs to */
    int64_t epoch;                     /* mirrored from owner->epoch */
    _Atomic int64_t last_tick_ns;
    _Atomic int     has_work;
    _Atomic int     warned;
    struct maka_sched_tick_s* next;
} maka_sched_tick_t;
static pthread_mutex_t __maka_ticks_mu = PTHREAD_MUTEX_INITIALIZER;
static maka_sched_tick_t* __maka_ticks_head = NULL;
static __thread maka_sched_tick_t* __maka_my_tick = NULL;
static _Atomic int __maka_watchdog_started = 0;
static int64_t __maka_watchdog_threshold_ns = 0;
static __thread Thread* maka_join_target = NULL;
static __thread maka_fiber_t* maka_anchor_fiber = NULL;
static __thread int maka_anchor_wake_on_finish = 0;
static __thread int maka_epoll_fd = -1;
static __thread int64_t maka_anchor_deadline_ns = 0; /* 0 = none; otherwise scheduler caps its timeout so anchor wakes by this */
"#;

/// Reactor backends (epoll, kqueue, poll) and descriptor registration.
pub const REACTOR_BACKENDS: &'static str = r#"#ifdef _WIN32
#include <winsock2.h>
#include <ws2tcpip.h>
#define poll WSAPoll
typedef unsigned long nfds_t;
#else
#include <poll.h>
#endif
#ifdef __linux__
#include <sys/epoll.h>
#define MAKA_USE_EPOLL 1
#define MAKA_USE_KQUEUE 0
#elif defined(__APPLE__) || defined(__FreeBSD__) || defined(__NetBSD__) || defined(__OpenBSD__)
#include <sys/event.h>
#include <sys/time.h>
#define MAKA_USE_EPOLL 0
#define MAKA_USE_KQUEUE 1
#define EPOLLIN  0x001
#define EPOLLOUT 0x004
#define EPOLLERR 0x008
#define EPOLLHUP 0x010
#define EPOLLONESHOT 0
#define EPOLL_CTL_ADD 1
#define EPOLL_CTL_MOD 2
#define EPOLL_CTL_DEL 3
#define EPOLL_CLOEXEC 0
typedef struct maka_epoll_event_t { int events; union { int fd; void* ptr; } data; } maka_epoll_event_t;
#define epoll_event maka_epoll_event_t
static __thread int __maka_kq_fd = -1;
static __thread int __maka_kq_armed_in[1024] = {0};   /* fd → 1 if EVFILT_READ armed */
static __thread int __maka_kq_armed_out[1024] = {0};  /* fd → 1 if EVFILT_WRITE armed */
static inline void __maka_kq_ensure(void) {
    if (__maka_kq_fd >= 0) return;
    __maka_kq_fd = kqueue();
    if (__maka_kq_fd >= 0) {
        int f = fcntl(__maka_kq_fd, F_GETFD);
        if (f >= 0) fcntl(__maka_kq_fd, F_SETFD, f | FD_CLOEXEC);
    }
}
static inline int epoll_create1(int flags) {
    (void)flags;
    __maka_kq_ensure();
    return __maka_kq_fd;
}
static inline int epoll_ctl(int ep, int op, int fd, struct epoll_event* e) {
    (void)ep;
    __maka_kq_ensure();
    int want_in  = e && (e->events & EPOLLIN);
    int want_out = e && (e->events & EPOLLOUT);
    int armed_in  = (fd >= 0 && fd < 1024) ? __maka_kq_armed_in [fd] : !want_in;
    int armed_out = (fd >= 0 && fd < 1024) ? __maka_kq_armed_out[fd] : !want_out;
    if (op == EPOLL_CTL_DEL) { want_in = 0; want_out = 0; armed_in = 1; armed_out = 1; }
    /* Issue each filter change separately with EV_RECEIPT so we
       see per-change errors (kevent stops processing on first
       error when not using EV_RECEIPT). */
    int rc = 0;
    struct kevent change, recv;
    if (want_in && !armed_in) {
        EV_SET(&change, fd, EVFILT_READ, EV_ADD | EV_RECEIPT, 0, 0, NULL);
        (void)kevent(__maka_kq_fd, &change, 1, &recv, 1, NULL);
        if (recv.data == 0 && fd >= 0 && fd < 1024) __maka_kq_armed_in[fd] = 1;
        else if (recv.data != 0) rc = -1;
    } else if (!want_in && armed_in) {
        EV_SET(&change, fd, EVFILT_READ, EV_DELETE | EV_RECEIPT, 0, 0, NULL);
        (void)kevent(__maka_kq_fd, &change, 1, &recv, 1, NULL);
        if (fd >= 0 && fd < 1024) __maka_kq_armed_in[fd] = 0;
    }
    if (want_out && !armed_out) {
        EV_SET(&change, fd, EVFILT_WRITE, EV_ADD | EV_RECEIPT, 0, 0, NULL);
        (void)kevent(__maka_kq_fd, &change, 1, &recv, 1, NULL);
        if (recv.data == 0 && fd >= 0 && fd < 1024) __maka_kq_armed_out[fd] = 1;
        else if (recv.data != 0) rc = -1;
    } else if (!want_out && armed_out) {
        EV_SET(&change, fd, EVFILT_WRITE, EV_DELETE | EV_RECEIPT, 0, 0, NULL);
        (void)kevent(__maka_kq_fd, &change, 1, &recv, 1, NULL);
        if (fd >= 0 && fd < 1024) __maka_kq_armed_out[fd] = 0;
    }
    return rc;
}
static inline int __maka_epoll_wait_kq(struct epoll_event* evs, int max, int timeout_ms) {
    __maka_kq_ensure();
    struct kevent kevs[32]; if (max > 32) max = 32;
    struct timespec ts; struct timespec* pts = NULL;
    if (timeout_ms >= 0) { ts.tv_sec = timeout_ms/1000; ts.tv_nsec = (timeout_ms%1000)*1000000; pts = &ts; }
    int n;
    /* Retry on EINTR — otherwise the scheduler treats a signal
       interrupt as a full quantum elapsed and busy-loops. */
    do { n = kevent(__maka_kq_fd, NULL, 0, kevs, max, pts); }
    while (n < 0 && errno == EINTR);
    if (n < 0) return 0;  /* other errors: treat as no events */
    int out = 0;
    for (int i = 0; i < n; i++) {
        evs[out].events = 0;
        if (kevs[i].filter == EVFILT_READ)  evs[out].events |= EPOLLIN;
        if (kevs[i].filter == EVFILT_WRITE) evs[out].events |= EPOLLOUT;
        if ((kevs[i].flags & EV_EOF) && kevs[i].filter == EVFILT_READ && kevs[i].data == 0)
            evs[out].events |= EPOLLHUP;
        if (kevs[i].flags & EV_ERROR)       evs[out].events |= EPOLLERR;
        evs[out].data.fd = (int)kevs[i].ident;
        out++;
    }
    return out;
}
#define epoll_wait(ep, evs, max, t) __maka_epoll_wait_kq((evs), (max), (t))
#else
#define MAKA_USE_EPOLL 0
#define MAKA_USE_KQUEUE 0
#define EPOLLIN  POLLIN
#define EPOLLOUT POLLOUT
#define EPOLLERR POLLERR
#define EPOLLHUP POLLHUP
#define EPOLLONESHOT 0
#define EPOLL_CTL_ADD 1
#define EPOLL_CTL_MOD 2
#define EPOLL_CTL_DEL 3
#define EPOLL_CLOEXEC 0
typedef struct maka_epoll_event_t { int events; union { int fd; void* ptr; } data; } maka_epoll_event_t;
#define epoll_event maka_epoll_event_t
static inline int epoll_create1(int flags) { (void)flags; return 0; }
static inline int epoll_ctl(int ep, int op, int fd, struct epoll_event* e) {
    (void)ep; (void)op; (void)fd; (void)e; return 0;
}
static int __maka_epoll_wait_poll(struct epoll_event* evs, int max, int timeout_ms);
#define epoll_wait(ep, evs, max, t) __maka_epoll_wait_poll((evs), (max), (t))
#endif
typedef struct maka_fd_reg_s {
    int fd;
    int events_mask;        /* epoll bits currently armed */
    struct maka_fd_reg_s* next;
} maka_fd_reg_t;
static __thread maka_fd_reg_t* maka_fd_regs = NULL;
static maka_fd_reg_t* __maka_fd_reg_get(int fd) {
    for (maka_fd_reg_t* r = maka_fd_regs; r; r = r->next) if (r->fd == fd) return r;
    return NULL;
}
static maka_fd_reg_t* __maka_fd_reg_ensure(int fd) {
    maka_fd_reg_t* r = __maka_fd_reg_get(fd);
    if (r) return r;
    r = (maka_fd_reg_t*)calloc(1, sizeof(maka_fd_reg_t));
    r->fd = fd; r->events_mask = 0; r->next = maka_fd_regs; maka_fd_regs = r;
    return r;
}
static void __maka_fd_recompute(int fd);     /* fwd decl */
static void __maka_fd_arm(int fd, int events_mask);  /* fwd decl */
#if !MAKA_USE_EPOLL
static int __maka_epoll_wait_poll(struct epoll_event* evs, int max, int timeout_ms) {
    /* Count registered fds. */
    int n = 0;
    for (maka_fd_reg_t* r = maka_fd_regs; r; r = r->next) n++;
    if (n == 0) { if (timeout_ms > 0) { struct timespec ts = { timeout_ms/1000, (timeout_ms%1000)*1000000 }; nanosleep(&ts, NULL); } return 0; }
    struct pollfd* pfds = (struct pollfd*)calloc((size_t)n, sizeof(struct pollfd));
    int* fds = (int*)calloc((size_t)n, sizeof(int));
    int i = 0;
    for (maka_fd_reg_t* r = maka_fd_regs; r; r = r->next, i++) {
        pfds[i].fd = r->fd;
        pfds[i].events = (short)(r->events_mask & (POLLIN | POLLOUT));
        fds[i] = r->fd;
    }
    int rv;
    do { rv = poll(pfds, (nfds_t)n, timeout_ms); }
    while (rv < 0 && errno == EINTR);
    int out = 0;
    if (rv > 0) {
        for (int j = 0; j < n && out < max; j++) {
            if (pfds[j].revents) {
                int re = pfds[j].revents;
#ifdef _WIN32
                if ((re & POLLIN) && !(re & POLLHUP)) {
                    char c; int p = recv(pfds[j].fd, &c, 1, MSG_PEEK);
                    if (p == 0) re |= POLLHUP;
                }
#endif
                evs[out].events = re;
                evs[out].data.fd = fds[j];
                out++;
            }
        }
    }
    free(pfds); free(fds);
    return out;
}
#endif
static void __maka_fd_reg_drop(int fd) {
    maka_fd_reg_t** prev = &maka_fd_regs;
    while (*prev) {
        if ((*prev)->fd == fd) {
            maka_fd_reg_t* r = *prev; *prev = r->next; free(r); return;
        }
        prev = &(*prev)->next;
    }
}
__thread maka_fiber_t* maka_fd_waiters = NULL;
#define MAKA_EV_READ  1
#define MAKA_EV_WRITE 2
static __thread char maka_sched_stack[256 * 1024];
"#;

/// The ready queue and the wakes that cross threads.
pub const READY_QUEUE: &'static str = r#"static void __maka_ready_enqueue(maka_fiber_t* f) {
    if (atomic_exchange(&f->in_queue, 1) != 0) return;
    f->state = 0; f->next = NULL;
    maka_sched_state_t* candidate = (maka_sched_state_t*)atomic_load_explicit((_Atomic(void*)*)&f->home_sched, memory_order_acquire);
    if (candidate && candidate != maka_sched_state) {
        maka_sched_state_t* home = __maka_sched_validate_and_ref_epoch(candidate, atomic_load_explicit(&f->home_sched_epoch, memory_order_acquire));
        if (!home) {
            if (f->completion) {
                pthread_mutex_lock(&f->completion->done_mutex);
                f->completion->done_flag = 1;
                pthread_cond_broadcast(&f->completion->done_cond);
                pthread_mutex_unlock(&f->completion->done_mutex);
            }
            atomic_store(&f->in_queue, 0);
            return;
        }
        pthread_mutex_lock(&home->remote_mu);
        f->next = home->remote_wake_head;
        home->remote_wake_head = f;
        int wfd = home->wake_pipe_w;
        pthread_mutex_unlock(&home->remote_mu);
        if (wfd > 0) { char b = 1; (void)send((int)wfd, &b, 1, 0); }
        __maka_sched_state_unref(home);
        return;
    }
    if (maka_ready_tail) { maka_ready_tail->next = f; maka_ready_tail = f; }
    else { maka_ready_head = maka_ready_tail = f; }
}
static int __maka_cancel_fiber_local(Thread* t);
static void __maka_drain_remote_wakes(void) {
    if (!maka_sched_state) return;
    if (maka_sched_state->wake_pipe_r >= 0) {
        char drain[64]; (void)recv(maka_sched_state->wake_pipe_r, drain, sizeof(drain), 0);
    }
    pthread_mutex_lock(&maka_sched_state->remote_mu);
    maka_fiber_t* head = maka_sched_state->remote_wake_head;
    maka_sched_state->remote_wake_head = NULL;
    maka_cancel_req_t* creq = maka_sched_state->remote_cancel_head;
    maka_sched_state->remote_cancel_head = NULL;
    maka_close_req_t* clreq = maka_sched_state->remote_close_head;
    maka_sched_state->remote_close_head = NULL;
    pthread_mutex_unlock(&maka_sched_state->remote_mu);
    maka_fiber_t* prev = NULL;
    while (head) { maka_fiber_t* nx = head->next; head->next = prev; prev = head; head = nx; }
    while (prev) {
        maka_fiber_t* nx = prev->next; prev->next = NULL;
        atomic_store(&prev->in_queue, 0);
        if (maka_ready_tail) { maka_ready_tail->next = prev; maka_ready_tail = prev; }
        else { maka_ready_head = maka_ready_tail = prev; }
        prev->state = 0; prev = nx;
    }
    while (clreq) {
        maka_close_req_t* nx2 = clreq->next;
        int cfd = clreq->closed_fd;
        maka_fiber_t** prev2 = &maka_fd_waiters;
        while (*prev2) {
            maka_fiber_t* w = *prev2;
            if (w->waiting_fd == cfd) {
                *prev2 = w->next; w->next = NULL;
                w->waiting_fd = -1; w->waiting_events = 0;
                w->wait_deadline_ns = 0; w->wait_timed_out = 0;
                __maka_ready_enqueue(w);
            } else {
                prev2 = &(*prev2)->next;
            }
        }
        __maka_fd_recompute(cfd);
        free(clreq); clreq = nx2;
    }
    while (creq) {
        maka_cancel_req_t* nx = creq->next;
        Thread* tgt = creq->target;
        if (!__maka_cancel_fiber_local(tgt)) {
            pthread_mutex_lock(&tgt->done_mutex);
            tgt->done_flag = 1;
            pthread_cond_broadcast(&tgt->done_cond);
            pthread_mutex_unlock(&tgt->done_mutex);
        }
        __maka_thread_unref(tgt);
        free(creq); creq = nx;
    }
}
static maka_fiber_t* __maka_ready_dequeue(void) {
    maka_fiber_t* f = maka_ready_head;
    if (!f) return NULL;
    maka_ready_head = f->next;
    if (!maka_ready_head) maka_ready_tail = NULL;
    f->next = NULL;
    atomic_store(&f->in_queue, 0);
    return f;
}
static int64_t __maka_now_ns(void) {
    struct timespec ts; clock_gettime(CLOCK_MONOTONIC, &ts);
    return (int64_t)ts.tv_sec * 1000000000LL + ts.tv_nsec;
}
"#;

/// The blocking-call watchdog and scheduler registration.
pub const WATCHDOG: &'static str = r#"static void* __maka_watchdog_loop(void* arg) {
    (void)arg;
    int64_t threshold = __maka_watchdog_threshold_ns;
    int64_t sleep_ms = (threshold / 1000000) / 2;
    if (sleep_ms < 100) sleep_ms = 100;
    while (1) {
        struct timespec ts = { sleep_ms / 1000, (sleep_ms % 1000) * 1000000L };
        nanosleep(&ts, NULL);
        int64_t now = __maka_now_ns();
        pthread_mutex_lock(&__maka_ticks_mu);
        for (maka_sched_tick_t* t = __maka_ticks_head; t; t = t->next) {
            if (!atomic_load(&t->has_work)) { atomic_store(&t->warned, 0); continue; }
            int64_t last = atomic_load(&t->last_tick_ns);
            if (now - last > threshold && !atomic_load(&t->warned)) {
                fprintf(stderr, "maka: scheduler stuck — fibers haven't yielded for %.2fs (likely a blocking syscall inside a fiber)\n", (double)(now - last) / 1e9);
                atomic_store(&t->warned, 1);
            }
            if (now - last <= threshold && atomic_load(&t->warned)) atomic_store(&t->warned, 0);
        }
        pthread_mutex_unlock(&__maka_ticks_mu);
    }
    return NULL;
}
static void __maka_watchdog_register(void) {
    if (__maka_my_tick) return;
    __maka_my_tick = (maka_sched_tick_t*)calloc(1, sizeof(maka_sched_tick_t));
    __maka_my_tick->owner = maka_sched_state;
    __maka_my_tick->epoch = maka_sched_state->epoch;
    atomic_init(&__maka_my_tick->last_tick_ns, __maka_now_ns());
    pthread_mutex_lock(&__maka_ticks_mu);
    __maka_my_tick->next = __maka_ticks_head;
    __maka_ticks_head = __maka_my_tick;
    pthread_mutex_unlock(&__maka_ticks_mu);
    if (__maka_watchdog_threshold_ns == 0) {
        const char* env = getenv("MAKA_WATCHDOG_MS");
        int64_t ms = env ? atoll(env) : 0;
        if (ms <= 0) { __maka_watchdog_threshold_ns = -1; return; }
        __maka_watchdog_threshold_ns = ms * 1000000LL;
    }
    if (__maka_watchdog_threshold_ns < 0) return;
    int expected = 0;
    if (atomic_compare_exchange_strong(&__maka_watchdog_started, &expected, 1)) {
        pthread_t w;
        if (pthread_create(&w, NULL, __maka_watchdog_loop, NULL) == 0) {
            pthread_detach(w);
        } else {
            atomic_store(&__maka_watchdog_started, 0);
        }
    }
}
static void __maka_sched_state_key_dtor_impl(void* p) {
    if (__maka_my_tick) {
        pthread_mutex_lock(&__maka_ticks_mu);
        maka_sched_tick_t** prev = &__maka_ticks_head;
        while (*prev) {
            if (*prev == __maka_my_tick) { *prev = (*prev)->next; break; }
            prev = &(*prev)->next;
        }
        pthread_mutex_unlock(&__maka_ticks_mu);
        free(__maka_my_tick); __maka_my_tick = NULL;
    }
    if (maka_anchor_fiber) {
        free(maka_anchor_fiber); maka_anchor_fiber = NULL;
    }
    __maka_sched_state_unref((maka_sched_state_t*)p);
    maka_sched_state = NULL;
}
"#;

/// The scheduler loop.
pub const FIBER_SCHEDULER: &'static str = r#"static void __maka_scheduler_loop(void) {
    while (1) {
        int64_t now = __maka_now_ns();
        __maka_drain_remote_wakes();
        if (__maka_my_tick) {
            atomic_store(&__maka_my_tick->last_tick_ns, now);
            atomic_store(&__maka_my_tick->has_work, (maka_ready_head || maka_sleep_head || maka_fd_waiters) ? 1 : 0);
        }
        /* Move expired sleepers to ready */
        maka_fiber_t** prev = &maka_sleep_head;
        while (*prev) {
            maka_fiber_t* sf = *prev;
            if (sf->wake_at_ns <= now) {
                *prev = sf->next; sf->next = NULL;
                __maka_ready_enqueue(sf);
            } else { prev = &sf->next; }
        }
        /* Is the awaited target done? */
        if (maka_join_target) {
            Thread* tgt = maka_join_target;
            int done = 0;
            pthread_mutex_lock(&tgt->done_mutex);
            done = tgt->done_flag;
            pthread_mutex_unlock(&tgt->done_mutex);
            if (done) {
                maka_fiber_t* anchor = maka_anchor_fiber;
                maka_join_target = NULL;
                maka_current_fiber = anchor;
                swapcontext(&maka_sched_ctx, &anchor->ctx);
                continue;
            }
        }
        /* Pick a ready fiber */
        maka_fiber_t* f = __maka_ready_dequeue();
        if (f) {
            maka_current_fiber = f;
            f->state = 1;
            swapcontext(&maka_sched_ctx, &f->ctx);
            if (maka_pending_park) {
                maka_park_req_t* p = maka_pending_park;
                maka_pending_park = NULL;
                int __mp_enqueue_ready = 0;
                pthread_mutex_lock(p->lock);
                if (p->should_park(p->arg)) {
                    f->next_waiter = *p->head;
                    *p->head = f;
                } else {
                    f->state = 0;
                    __mp_enqueue_ready = 1;
                }
                if (p->inflight) {
                    if (atomic_fetch_sub(p->inflight, 1) == 1 && p->drained_cv) {
                        pthread_cond_signal(p->drained_cv);
                    }
                }
                pthread_mutex_unlock(p->lock);
                if (__mp_enqueue_ready) __maka_ready_enqueue(f);
            }
            maka_current_fiber = NULL;
            if (f->state == 4) {
                /* Fiber finished: mark completion + wake waiters. */
                Thread* fcompl = f->completion;
                pthread_mutex_lock(&fcompl->done_mutex);
                fcompl->done_flag = 1;
                pthread_cond_broadcast(&fcompl->done_cond);
                maka_fiber_t* drain = f->waiters; f->waiters = NULL;
                pthread_mutex_unlock(&fcompl->done_mutex);
                while (drain) {
                    maka_fiber_t* nx = drain->next_waiter; drain->next_waiter = NULL;
                    __maka_ready_enqueue(drain); drain = nx;
                }
                if (f != maka_anchor_fiber) {
                    while (atomic_load(&fcompl->aio_in_flight)) { struct timespec __mk_aio_ts = { 0, 1000 }; nanosleep(&__mk_aio_ts, NULL); }
                    free(f->entry_env); __maka_slab_free(f->slab); free(f);
                }
                /* Drop the runner-side ref; last drop frees.
                   Both joiner + detacher race against this on
                   __maka_thread_unref — refcount makes it safe. */
                __maka_thread_unref(fcompl);
                /* If anchor is parked in a select loop, return so it can re-poll. */
                if (maka_anchor_wake_on_finish) {
                    maka_current_fiber = maka_anchor_fiber;
                    swapcontext(&maka_sched_ctx, &maka_anchor_fiber->ctx);
                }
            }
            continue;
        }
        /* No ready fibers — wait for sleepers, fd events, or fall out. */
        int have_sleepers = (maka_sleep_head != NULL);
        int have_fd_waiters = (maka_fd_waiters != NULL);
        if (have_sleepers || have_fd_waiters) {
            int64_t timeout_ms = -1;
            int64_t now_ns = __maka_now_ns();
            if (have_sleepers) {
                int64_t min_wake = maka_sleep_head->wake_at_ns;
                for (maka_fiber_t* s = maka_sleep_head->next; s; s = s->next) {
                    if (s->wake_at_ns < min_wake) min_wake = s->wake_at_ns;
                }
                int64_t delta = min_wake - now_ns;
                if (delta <= 0) { continue; /* wake immediately */ }
                timeout_ms = delta / 1000000LL;
                if (timeout_ms < 1) timeout_ms = 1;
            }
            /* Honor wait_fd_timeout deadlines. */
            for (maka_fiber_t* f = maka_fd_waiters; f; f = f->next) {
                if (f->wait_deadline_ns == 0) continue;
                int64_t delta = f->wait_deadline_ns - now_ns;
                if (delta <= 0) { timeout_ms = 0; break; }
                int64_t dms = delta / 1000000LL;
                if (dms < 1) dms = 1;
                if (timeout_ms < 0 || dms < timeout_ms) timeout_ms = dms;
            }
            /* Honor anchor deadline (set by join_timeout / select_timeout). */
            int anchor_deadline_expired = 0;
            if (maka_anchor_deadline_ns != 0) {
                int64_t delta = maka_anchor_deadline_ns - now_ns;
                if (delta <= 0) { anchor_deadline_expired = 1; }
                else {
                    int64_t dms = delta / 1000000LL;
                    if (dms < 1) dms = 1;
                    if (timeout_ms < 0 || dms < timeout_ms) timeout_ms = dms;
                }
            }
            if (anchor_deadline_expired && maka_anchor_fiber) {
                maka_current_fiber = maka_anchor_fiber;
                swapcontext(&maka_sched_ctx, &maka_anchor_fiber->ctx);
                continue;
            }
            if (have_fd_waiters && maka_epoll_fd >= 0) {
                struct epoll_event evs[32];
                int n = epoll_wait(maka_epoll_fd, evs, 32, (int)timeout_ms);
                for (int i = 0; i < n; i++) {
                    int evfd = evs[i].data.fd;
                    int err_hup = evs[i].events & (EPOLLERR | EPOLLHUP);
                    /* Wake every fiber waiting on this fd whose interest
                       intersects the fired events, plus all of them on err/hup. */
                    maka_fiber_t** prev2 = &maka_fd_waiters;
                    while (*prev2) {
                        maka_fiber_t* w = *prev2;
                        if (w->waiting_fd == evfd && (err_hup || (evs[i].events & w->waiting_events))) {
                            *prev2 = w->next; w->next = NULL;
                            w->waiting_fd = -1; w->waiting_events = 0;
                            w->wait_deadline_ns = 0; w->wait_timed_out = 0;
                            __maka_ready_enqueue(w);
                        } else {
                            prev2 = &(*prev2)->next;
                        }
                    }
                    /* Re-arm with the remaining interest, or drop. */
                    __maka_fd_recompute(evfd);
                }
                /* After epoll, reap timed-out fd waiters. */
                int64_t now2 = __maka_now_ns();
                maka_fiber_t** prev3 = &maka_fd_waiters;
                int timed_out_fds[32]; int n_timed_out = 0;
                while (*prev3) {
                    maka_fiber_t* f = *prev3;
                    if (f->wait_deadline_ns != 0 && f->wait_deadline_ns <= now2) {
                        int tfd = f->waiting_fd;
                        *prev3 = f->next; f->next = NULL;
                        f->waiting_fd = -1; f->waiting_events = 0;
                        f->wait_deadline_ns = 0;
                        f->wait_timed_out = 1;
                        __maka_ready_enqueue(f);
                        /* Record fd so we can recompute the per-fd mask
                           after the walk (avoid mutating the registry while
                           the per-waiter walk is still in flight). */
                        if (n_timed_out < 32 && tfd >= 0) timed_out_fds[n_timed_out++] = tfd;
                    } else {
                        prev3 = &(*prev3)->next;
                    }
                }
                for (int k = 0; k < n_timed_out; k++) __maka_fd_recompute(timed_out_fds[k]);
            } else if (have_sleepers) {
                struct timespec ts = { timeout_ms / 1000, (timeout_ms % 1000) * 1000000 };
                nanosleep(&ts, NULL);
            }
            /* Anchor deadline reached?  Hand control back so the
               caller's timeout primitive can finish. */
            if (maka_anchor_deadline_ns != 0 && __maka_now_ns() >= maka_anchor_deadline_ns && maka_anchor_fiber) {
                maka_current_fiber = maka_anchor_fiber;
                swapcontext(&maka_sched_ctx, &maka_anchor_fiber->ctx);
            }
            continue;
        }
        /* Nothing more to do: poll the awaited target with a small sleep. */
        if (maka_join_target) {
            struct timespec ts = { 0, 200000 /* 200us */ };
            nanosleep(&ts, NULL);
            continue;
        }
        /* No work, no joiner: hand back to anchor. */
        if (maka_anchor_fiber) {
            maka_current_fiber = maka_anchor_fiber;
            swapcontext(&maka_sched_ctx, &maka_anchor_fiber->ctx);
            continue;
        }
        return;
    }
}
"#;

/// Scheduler lifetime, spawning fibers and yielding.
pub const SCHEDULER_STATE: &'static str = r#"static pthread_key_t __maka_sched_state_key;
static pthread_once_t __maka_sched_state_once = PTHREAD_ONCE_INIT;
static void __maka_sched_state_cleanup(void* p);
static inline void __maka_sched_state_ref(maka_sched_state_t* s) {
    if (s) atomic_fetch_add(&s->refcount, 1);
}
static inline void __maka_sched_state_unref(maka_sched_state_t* s) {
    if (!s) return;
    if (atomic_fetch_sub(&s->refcount, 1) == 1) __maka_sched_state_cleanup((void*)s);
}
static inline maka_sched_state_t* __maka_sched_validate_and_ref_epoch(maka_sched_state_t* candidate, int64_t expected_epoch) {
    if (!candidate) return NULL;
    pthread_mutex_lock(&__maka_ticks_mu);
    for (maka_sched_tick_t* tk = __maka_ticks_head; tk; tk = tk->next) {
        if (tk->owner == candidate && tk->epoch == expected_epoch) {
            atomic_fetch_add(&candidate->refcount, 1);
            pthread_mutex_unlock(&__maka_ticks_mu);
            return candidate;
        }
    }
    pthread_mutex_unlock(&__maka_ticks_mu);
    return NULL;
}
static inline maka_sched_state_t* __maka_sched_validate_and_ref(maka_sched_state_t* candidate) {
    if (!candidate) return NULL;
    pthread_mutex_lock(&__maka_ticks_mu);
    for (maka_sched_tick_t* tk = __maka_ticks_head; tk; tk = tk->next) {
        if (tk->owner == candidate) {
            atomic_fetch_add(&candidate->refcount, 1);
            pthread_mutex_unlock(&__maka_ticks_mu);
            return candidate;
        }
    }
    pthread_mutex_unlock(&__maka_ticks_mu);
    return NULL;
}
static void __maka_sched_state_cleanup(void* p) {
    maka_sched_state_t* s = (maka_sched_state_t*)p;
    if (!s) return;
    pthread_mutex_lock(&s->remote_mu);
    maka_cancel_req_t* creq = s->remote_cancel_head;
    s->remote_cancel_head = NULL;
    maka_fiber_t* wake = s->remote_wake_head;
    s->remote_wake_head = NULL;
    maka_close_req_t* clreq = s->remote_close_head;
    s->remote_close_head = NULL;
    pthread_mutex_unlock(&s->remote_mu);
    while (clreq) { maka_close_req_t* nx = clreq->next; free(clreq); clreq = nx; }
    while (wake) {
        maka_fiber_t* nx = wake->next; wake->next = NULL;
        atomic_store(&wake->in_queue, 0);
        Thread* tcompl = wake->completion;
        if (tcompl) {
            pthread_mutex_lock(&tcompl->done_mutex);
            tcompl->done_flag = 1;
            pthread_cond_broadcast(&tcompl->done_cond);
            pthread_mutex_unlock(&tcompl->done_mutex);
        }
        if (wake->entry_env) free(wake->entry_env);
        if (wake->slab) __maka_slab_free(wake->slab);
        free(wake);
        if (tcompl) __maka_thread_unref(tcompl);
        wake = nx;
    }
    while (creq) {
        maka_cancel_req_t* nx = creq->next;
        Thread* tgt = creq->target;
        pthread_mutex_lock(&tgt->done_mutex);
        tgt->done_flag = 1;
        pthread_cond_broadcast(&tgt->done_cond);
        pthread_mutex_unlock(&tgt->done_mutex);
        __maka_thread_unref(tgt);  /* request ref */
        __maka_thread_unref(tgt);  /* runner ref */
        free(creq); creq = nx;
    }
    if (s == maka_sched_state) {
        if (s->wake_pipe_r >= 0) { __maka_fd_arm(s->wake_pipe_r, 0); __maka_fd_reg_drop(s->wake_pipe_r); close(s->wake_pipe_r); }
        if (s->wake_pipe_w >= 0) close(s->wake_pipe_w);
    } else {
        if (s->wake_pipe_r >= 0) close(s->wake_pipe_r);
        if (s->wake_pipe_w >= 0) close(s->wake_pipe_w);
    }
    pthread_mutex_destroy(&s->remote_mu);
    free(s);
}
static void __maka_sched_state_key_dtor_impl(void* p);
static void __maka_sched_state_key_dtor(void* p) { __maka_sched_state_key_dtor_impl(p); }
static void __maka_sched_key_init(void) {
    pthread_key_create(&__maka_sched_state_key, __maka_sched_state_key_dtor);
}
static void __maka_sched_register_thread(maka_sched_state_t* s) {
    pthread_once(&__maka_sched_state_once, __maka_sched_key_init);
    pthread_setspecific(__maka_sched_state_key, s);
}
static void __maka_sched_init(void) {
    if (maka_sched_inited) return;
    maka_sched_inited = 1;
#if !defined(_WIN32) && !defined(__APPLE__) && !defined(__FreeBSD__) && !defined(__NetBSD__) && !defined(__OpenBSD__) && !defined(__DragonFly__)
    extern int socketpair(int domain, int type, int protocol, int sv[2]);
#ifndef AF_UNIX
#define AF_UNIX 1
#endif
#ifndef SOCK_STREAM
#define SOCK_STREAM 1
#endif
#endif
    maka_sched_state = (maka_sched_state_t*)calloc(1, sizeof(maka_sched_state_t));
    pthread_mutex_init(&maka_sched_state->remote_mu, NULL);
    atomic_init(&maka_sched_state->refcount, 1);
    maka_sched_state->epoch = atomic_fetch_add(&__maka_sched_epoch_ctr, 1);
    int wp[2]; int ok;
#ifdef _WIN32
    ok = (pipe(wp) == 0);
    if (ok) { u_long nb = 1; ioctlsocket((SOCKET)wp[0], FIONBIO, &nb); ioctlsocket((SOCKET)wp[1], FIONBIO, &nb); }
#else
    ok = (socketpair(AF_UNIX, SOCK_STREAM, 0, wp) == 0);
    if (ok) {
        int f0 = fcntl(wp[0], F_GETFL, 0); fcntl(wp[0], F_SETFL, f0 | O_NONBLOCK);
        int f1 = fcntl(wp[1], F_GETFL, 0); fcntl(wp[1], F_SETFL, f1 | O_NONBLOCK);
    }
#endif
    if (ok) {
        maka_sched_state->wake_pipe_r = wp[0];
        maka_sched_state->wake_pipe_w = wp[1];
        __maka_fd_arm(wp[0], MAKA_EV_READ);
    } else { maka_sched_state->wake_pipe_r = maka_sched_state->wake_pipe_w = -1; }
    __maka_watchdog_register();
    __maka_sched_register_thread(maka_sched_state);
    /* anchor represents the calling (main or pthread) context */
    maka_anchor_fiber = (maka_fiber_t*)calloc(1, sizeof(maka_fiber_t));
    maka_anchor_fiber->state = 1;
    atomic_store_explicit(&maka_anchor_fiber->home_sched_epoch, maka_sched_state->epoch, memory_order_relaxed);
    atomic_store_explicit(&maka_anchor_fiber->home_sched, (void*)maka_sched_state, memory_order_release);
    maka_current_fiber = maka_anchor_fiber;
    getcontext(&maka_sched_ctx);
    maka_sched_ctx.uc_stack.ss_sp = maka_sched_stack;
    maka_sched_ctx.uc_stack.ss_size = sizeof(maka_sched_stack);
    maka_sched_ctx.uc_link = NULL;
    makecontext(&maka_sched_ctx, __maka_scheduler_loop, 0);
}
static void __maka_fiber_entry(void) {
    maka_fiber_t* f = maka_current_fiber;
    f->entry_code(f->entry_env);
    f->state = 4;
    swapcontext(&f->ctx, &maka_sched_ctx);
}
maka_unit* __maka_spawn_fiber(void* code, void* env) {
    __maka_sched_init();
    Thread* t = __maka_thread_new();
    t->is_fiber = 1;
    maka_fiber_t* f = (maka_fiber_t*)calloc(1, sizeof(maka_fiber_t));
    if (!f) {
        atomic_store(&t->is_failed, 1);
        pthread_mutex_lock(&t->done_mutex); t->done_flag = 1; pthread_cond_broadcast(&t->done_cond); pthread_mutex_unlock(&t->done_mutex);
        __maka_thread_unref(t);  /* runner ref */
        return (maka_unit*)t;
    }
    f->slab = __maka_slab_alloc();
    if (!f->slab) {
        free(f);
        atomic_store(&t->is_failed, 1);
        pthread_mutex_lock(&t->done_mutex); t->done_flag = 1; pthread_cond_broadcast(&t->done_cond); pthread_mutex_unlock(&t->done_mutex);
        __maka_thread_unref(t);  /* runner ref */
        return (maka_unit*)t;
    }
    f->entry_code = (void(*)(void*))code;
    f->entry_env = env;
    f->completion = t;
    f->state = 0;
    f->waiting_fd = -1;
    f->waiting_events = 0;
    f->wait_deadline_ns = 0;
    f->wait_timed_out = 0;
    atomic_store_explicit(&f->home_sched_epoch, maka_sched_state->epoch, memory_order_relaxed);
    atomic_store_explicit(&f->home_sched, (void*)maka_sched_state, memory_order_release);
    atomic_store_explicit(&t->home_sched_epoch, maka_sched_state->epoch, memory_order_relaxed);
    atomic_store_explicit((_Atomic(void*)*)&t->home_sched, (void*)maka_sched_state, memory_order_release);
    getcontext(&f->ctx);
    f->ctx.uc_stack.ss_sp = f->slab->stack_top;
    f->ctx.uc_stack.ss_size = MAKA_FIBER_STACK_SIZE;
    f->ctx.uc_link = &maka_sched_ctx;
    makecontext(&f->ctx, __maka_fiber_entry, 0);
    __maka_ready_enqueue(f);
    return (maka_unit*)t;
}
"#;

/// Background workers that run fibers from a shared queue.
pub const FIBER_POOL: &'static str = r#"typedef struct {
    maka_fiber_t* head; maka_fiber_t* tail;
    pthread_mutex_t lock; pthread_cond_t cond;
    int closed;
} maka_pool_q_t;
static maka_pool_q_t __maka_pool_q;
static _Atomic int __maka_pool_inited = 0;
static int __maka_pool_n_workers = 0;
static int __maka_pool_q_push(maka_fiber_t* f) {
    pthread_mutex_lock(&__maka_pool_q.lock);
    if (__maka_pool_q.closed) { pthread_mutex_unlock(&__maka_pool_q.lock); return -1; }
    f->next = NULL;
    if (__maka_pool_q.tail) __maka_pool_q.tail->next = f;
    else __maka_pool_q.head = f;
    __maka_pool_q.tail = f;
    pthread_cond_signal(&__maka_pool_q.cond);
    pthread_mutex_unlock(&__maka_pool_q.lock);
    return 0;
}
static maka_fiber_t* __maka_pool_q_pop_timed(int ms) {
    pthread_mutex_lock(&__maka_pool_q.lock);
    while (!__maka_pool_q.head && !__maka_pool_q.closed) {
        struct timespec ts; clock_gettime(CLOCK_REALTIME, &ts);
        ts.tv_sec += ms / 1000;
        ts.tv_nsec += (ms % 1000) * 1000000L;
        if (ts.tv_nsec >= 1000000000L) { ts.tv_sec++; ts.tv_nsec -= 1000000000L; }
        int r = pthread_cond_timedwait(&__maka_pool_q.cond, &__maka_pool_q.lock, &ts);
        if (r != 0) break;
    }
    maka_fiber_t* f = __maka_pool_q.head;
    if (f) {
        __maka_pool_q.head = f->next;
        if (!__maka_pool_q.head) __maka_pool_q.tail = NULL;
        f->next = NULL;
    }
    pthread_mutex_unlock(&__maka_pool_q.lock);
    return f;
}
static void* __maka_pool_worker(void* arg) {
    (void)arg;
    __maka_sched_init();
    while (1) {
        maka_fiber_t* f = __maka_pool_q_pop_timed(500);
        if (!f) {
            pthread_mutex_lock(&__maka_pool_q.lock);
            int closed = __maka_pool_q.closed;
            pthread_mutex_unlock(&__maka_pool_q.lock);
            if (closed) break;
            continue;
        }
        if (atomic_load(&f->completion->cancel_requested)) {
            Thread* tcompl = f->completion;
            pthread_mutex_lock(&tcompl->done_mutex);
            tcompl->done_flag = 1;
            pthread_cond_broadcast(&tcompl->done_cond);
            pthread_mutex_unlock(&tcompl->done_mutex);
            free(f->entry_env); __maka_slab_free(f->slab); free(f);
            __maka_thread_unref(tcompl);  /* runner ref */
            continue;
        }
        atomic_store_explicit(&f->home_sched_epoch, maka_sched_state->epoch, memory_order_relaxed);
        atomic_store_explicit(&f->home_sched, (void*)maka_sched_state, memory_order_release);
        atomic_store_explicit(&f->completion->home_sched_epoch, maka_sched_state->epoch, memory_order_relaxed);
        atomic_store_explicit((_Atomic(void*)*)&f->completion->home_sched, (void*)maka_sched_state, memory_order_release);
        __maka_ready_enqueue(f);
        /* Drive scheduler until our local queue is empty + nothing waiting. */
        swapcontext(&maka_anchor_fiber->ctx, &maka_sched_ctx);
        maka_current_fiber = maka_anchor_fiber;
    }
    return NULL;
}
static void __maka_pool_init(void) {
    int expected = 0;
    if (!atomic_compare_exchange_strong(&__maka_pool_inited, &expected, 1)) return;
    pthread_mutex_init(&__maka_pool_q.lock, NULL);
    pthread_cond_init(&__maka_pool_q.cond, NULL);
    long n = sysconf(_SC_NPROCESSORS_ONLN);
    if (n < 2) n = 2;
    if (n > 16) n = 16;
    int started = 0;
    for (int i = 0; i < (int)n; i++) {
        pthread_t w;
        if (pthread_create(&w, NULL, __maka_pool_worker, NULL) == 0) {
            pthread_detach(w); started++;
        }
    }
    __maka_pool_n_workers = started;
    if (started == 0) {
        pthread_mutex_lock(&__maka_pool_q.lock);
        __maka_pool_q.closed = 1;
        pthread_cond_broadcast(&__maka_pool_q.cond);
        pthread_mutex_unlock(&__maka_pool_q.lock);
    }
}
maka_unit* __maka_spawn_pool(void* code, void* env) {
    __maka_pool_init();
    Thread* t = __maka_thread_new();
    t->is_fiber = 1;
    maka_fiber_t* f = (maka_fiber_t*)calloc(1, sizeof(maka_fiber_t));
    if (!f) {
        atomic_store(&t->is_failed, 1);
        pthread_mutex_lock(&t->done_mutex); t->done_flag = 1; pthread_cond_broadcast(&t->done_cond); pthread_mutex_unlock(&t->done_mutex);
        __maka_thread_unref(t);  /* runner ref */
        return (maka_unit*)t;
    }
    f->slab = __maka_slab_alloc();
    if (!f->slab) {
        free(f);
        atomic_store(&t->is_failed, 1);
        pthread_mutex_lock(&t->done_mutex); t->done_flag = 1; pthread_cond_broadcast(&t->done_cond); pthread_mutex_unlock(&t->done_mutex);
        __maka_thread_unref(t);  /* runner ref */
        return (maka_unit*)t;
    }
    f->entry_code = (void(*)(void*))code;
    f->entry_env = env;
    f->completion = t;
    f->state = 0;
    f->waiting_fd = -1; f->waiting_events = 0;
    f->wait_deadline_ns = 0; f->wait_timed_out = 0;
    getcontext(&f->ctx);
    f->ctx.uc_stack.ss_sp = f->slab->stack_top;
    f->ctx.uc_stack.ss_size = MAKA_FIBER_STACK_SIZE;
    f->ctx.uc_link = NULL;
    makecontext(&f->ctx, __maka_fiber_entry, 0);
    if (__maka_pool_q_push(f) != 0) {
        pthread_mutex_lock(&t->done_mutex);
        t->done_flag = 1;
        pthread_cond_broadcast(&t->done_cond);
        pthread_mutex_unlock(&t->done_mutex);
        free(f->entry_env); __maka_slab_free(f->slab); free(f);
        __maka_thread_unref(t);  /* runner ref */
    }
    return (maka_unit*)t;
}
void __maka_yield_now(void) {
    if (!maka_current_fiber || maka_current_fiber == maka_anchor_fiber) return;
    maka_fiber_t* me = maka_current_fiber;
    __maka_ready_enqueue(me);
    swapcontext(&me->ctx, &maka_sched_ctx);
}
static void __maka_sleep_fiber(int64_t nanos) {
    maka_fiber_t* me = maka_current_fiber;
    me->wake_at_ns = __maka_now_ns() + nanos;
    me->state = 3;
    me->next = maka_sleep_head;
    maka_sleep_head = me;
    swapcontext(&me->ctx, &maka_sched_ctx);
}
"#;

/// Waiting on file descriptors through the scheduler.
pub const IO_REACTOR: &'static str = r#"static void __maka_fd_arm(int fd, int events_mask) {
    if (maka_epoll_fd < 0) { maka_epoll_fd = epoll_create1(EPOLL_CLOEXEC); }
    if (events_mask == 0) {
        epoll_ctl(maka_epoll_fd, EPOLL_CTL_DEL, fd, NULL);
        __maka_fd_reg_drop(fd);
        return;
    }
    maka_fd_reg_t* r = __maka_fd_reg_ensure(fd);
    struct epoll_event ev; memset(&ev, 0, sizeof(ev));
    ev.events = events_mask | EPOLLERR | EPOLLHUP;
    ev.data.fd = fd;
    if (epoll_ctl(maka_epoll_fd, EPOLL_CTL_MOD, fd, &ev) != 0) {
        if (errno == ENOENT) epoll_ctl(maka_epoll_fd, EPOLL_CTL_ADD, fd, &ev);
    }
    r->events_mask = events_mask;
}
static void __maka_fd_recompute(int fd) {
    if (maka_sched_state && fd == maka_sched_state->wake_pipe_r) return;
    int mask = 0;
    for (maka_fiber_t* w = maka_fd_waiters; w; w = w->next) {
        if (w->waiting_fd == fd) mask |= w->waiting_events;
    }
    __maka_fd_arm(fd, mask);
}
void __maka_wait_fd(int64_t fd, int64_t events) {
    if (!maka_current_fiber || maka_current_fiber == maka_anchor_fiber) {
        struct pollfd pfd; pfd.fd = (int)fd; pfd.events = 0; pfd.revents = 0;
        if (events & MAKA_EV_READ)  pfd.events |= POLLIN;
        if (events & MAKA_EV_WRITE) pfd.events |= POLLOUT;
        poll(&pfd, 1, -1);
        return;
    }
    int ep_events = 0;
    if (events & MAKA_EV_READ)  ep_events |= EPOLLIN;
    if (events & MAKA_EV_WRITE) ep_events |= EPOLLOUT;
    maka_current_fiber->waiting_fd = (int)fd;
    maka_current_fiber->waiting_events = ep_events;
    maka_current_fiber->state = 5;
    maka_current_fiber->next = maka_fd_waiters;
    maka_fd_waiters = maka_current_fiber;
    __maka_fd_recompute((int)fd);
    swapcontext(&maka_current_fiber->ctx, &maka_sched_ctx);
}
static int64_t __maka_now_ms(void) {
    struct timespec ts; clock_gettime(CLOCK_MONOTONIC, &ts);
    return (int64_t)ts.tv_sec * 1000 + (int64_t)ts.tv_nsec / 1000000;
}
int64_t __maka_wait_fd_timeout(int64_t fd, int64_t events, int64_t ms) {
    if (!maka_current_fiber || maka_current_fiber == maka_anchor_fiber) {
        struct pollfd pfd; pfd.fd = (int)fd; pfd.events = 0; pfd.revents = 0;
        if (events & MAKA_EV_READ)  pfd.events |= POLLIN;
        if (events & MAKA_EV_WRITE) pfd.events |= POLLOUT;
        int r = poll(&pfd, 1, (int)ms);
        return r > 0 ? 1 : 0;
    }
    int ep_events = 0;
    if (events & MAKA_EV_READ)  ep_events |= EPOLLIN;
    if (events & MAKA_EV_WRITE) ep_events |= EPOLLOUT;
    maka_current_fiber->waiting_fd = (int)fd;
    maka_current_fiber->waiting_events = ep_events;
    maka_current_fiber->state = 5;
    maka_current_fiber->wait_deadline_ns = __maka_now_ns() + ms * 1000000LL;
    maka_current_fiber->wait_timed_out = 0;
    maka_current_fiber->next = maka_fd_waiters;
    maka_fd_waiters = maka_current_fiber;
    __maka_fd_recompute((int)fd);
    swapcontext(&maka_current_fiber->ctx, &maka_sched_ctx);
    /* Scheduler resumes us either on fd event or on deadline. */
    return maka_current_fiber->wait_timed_out ? 0 : 1;
}
#include <fcntl.h>
/* TCP runtime — scoped includes to avoid name clashes. */
static inline int64_t __maka_tcp_listen(int64_t port, int64_t backlog);
static inline int64_t __maka_tcp_listen_any(int64_t port, int64_t backlog);
static inline int64_t __maka_udp_open(int64_t port);
static inline int64_t __maka_udp_send_v4(int64_t fd, int64_t a, int64_t b, int64_t c, int64_t d, int64_t port, maka_unit* buf, int64_t len);
static inline int64_t __maka_udp_recv_async(int64_t fd, maka_unit* buf, int64_t cap);
static inline int64_t __maka_signalfd_open(int64_t signum);
static inline int64_t __maka_signalfd_recv(int64_t fd);
static inline int64_t __maka_timerfd_create(int64_t initial_ns, int64_t interval_ns);
static inline int64_t __maka_timerfd_recv(int64_t fd);
static inline int64_t __maka_eventfd_create(int64_t initial);
static inline int64_t __maka_eventfd_signal(int64_t fd, int64_t n);
static inline int64_t __maka_eventfd_recv(int64_t fd);
static inline int64_t __maka_inotify_open(void);
static inline int64_t __maka_inotify_add(int64_t fd, const char* path, int64_t mask);
static inline int64_t __maka_inotify_recv(int64_t fd);
static inline int64_t __maka_tcp_accept_async(int64_t listen_fd);
static inline int64_t __maka_tcp_connect_v4(int64_t a, int64_t b, int64_t c, int64_t d, int64_t port);
static inline int64_t __maka_close_fd(int64_t fd);
static inline int64_t __maka_dns_resolve_v4(const char* host);
static inline int64_t __maka_file_open(const char* path, int64_t flags, int64_t mode);
static inline int64_t __maka_file_read_async(int64_t fd, maka_unit* buf, int64_t cap, int64_t offset);
static inline int64_t __maka_file_write_async(int64_t fd, maka_unit* buf, int64_t len, int64_t offset);
static inline int64_t __maka_unix_listen(const char* path, int64_t backlog);
static inline int64_t __maka_unix_connect(const char* path);
static inline int64_t __maka_http_parse(const char* buf, int64_t len);
static inline int64_t __maka_http_method_off_g(void);
static inline int64_t __maka_http_method_len_g(void);
static inline int64_t __maka_http_path_off_g(void);
static inline int64_t __maka_http_path_len_g(void);
static inline int64_t __maka_http_body_off_g(void);
static inline int64_t __maka_http_content_length_g(void);
static inline int64_t __maka_pipe_create(void);
static inline int64_t __maka_pipe_write_fd(void);
static inline int64_t __maka_tls_server_init(const char* cert_pem, const char* key_pem);
static inline maka_unit* __maka_tls_server_accept_new(int64_t fd);
static inline maka_unit* __maka_tls_client_new(int64_t fd, const char* hostname);
static inline int64_t __maka_tls_handshake(maka_unit* p);
static inline int64_t __maka_tls_read(maka_unit* p, maka_unit* buf, int64_t cap);
static inline int64_t __maka_tls_write(maka_unit* p, maka_unit* buf, int64_t len);
static inline void __maka_tls_close(maka_unit* p);
int64_t __maka_set_nonblock(int64_t fd) {
    int flags = fcntl((int)fd, F_GETFL, 0);
    if (flags < 0) return -1;
    return fcntl((int)fd, F_SETFL, flags | O_NONBLOCK) < 0 ? -1 : 0;
}
int64_t __maka_read_async(int64_t fd, maka_unit* buf, int64_t cap) {
    while (1) {
        ssize_t n = read((int)fd, (void*)buf, (size_t)cap);
        if (n >= 0) return (int64_t)n;
        if (errno == EAGAIN || errno == EWOULDBLOCK) {
            __maka_wait_fd(fd, MAKA_EV_READ); continue;
        }
        if (errno == EINTR) continue;
        return -1;
    }
}
int64_t __maka_write_async(int64_t fd, maka_unit* buf, int64_t len) {
    int64_t w = 0;
    while (w < len) {
        ssize_t n = write((int)fd, (const char*)(const void*)buf + w, (size_t)(len - w));
        if (n >= 0) { w += n; continue; }
        if (errno == EAGAIN || errno == EWOULDBLOCK) {
            __maka_wait_fd(fd, MAKA_EV_WRITE); continue;
        }
        if (errno == EINTR) continue;
        return -1;
    }
    return w;
}
"#;

/// The work-stealing job pool.
pub const JOB_POOL: &'static str = r#"#include <stdatomic.h>
#define MAKA_WS_CAP 8192
typedef struct { void* code; void* env; Thread* h; } __maka_job_entry_t;
typedef struct {
    _Atomic int64_t top;
    _Atomic int64_t bottom;
    __maka_job_entry_t buf[MAKA_WS_CAP];
} __maka_ws_deque_t;
static long __maka_n_workers = 0;
static __maka_ws_deque_t* __maka_ws_deques = NULL;
static __thread int __maka_ws_worker_id = -1;
static pthread_mutex_t __maka_ws_idle_mu = PTHREAD_MUTEX_INITIALIZER;
static pthread_cond_t  __maka_ws_idle_cv = PTHREAD_COND_INITIALIZER;
static _Atomic int     __maka_ws_pending = 0;  /* jobs currently in any deque */
static inline void __maka_ws_notify(void) {
    pthread_mutex_lock(&__maka_ws_idle_mu);
    pthread_cond_broadcast(&__maka_ws_idle_cv);
    pthread_mutex_unlock(&__maka_ws_idle_mu);
}
static __thread unsigned int __maka_ws_rng = 0;
static unsigned int __maka_ws_rand(void) {
    /* xorshift32 — fast, no global state contention */
    unsigned int x = __maka_ws_rng ? __maka_ws_rng : (unsigned int)(uintptr_t)&__maka_ws_rng;
    x ^= x << 13; x ^= x >> 17; x ^= x << 5;
    __maka_ws_rng = x;
    return x;
}
static int __maka_ws_push(__maka_ws_deque_t* dq, __maka_job_entry_t item) {
    int64_t b = atomic_load_explicit(&dq->bottom, memory_order_relaxed);
    int64_t t = atomic_load_explicit(&dq->top, memory_order_acquire);
    if (b - t >= MAKA_WS_CAP) return 0; /* full */
    dq->buf[b % MAKA_WS_CAP] = item;
    atomic_thread_fence(memory_order_release);
    atomic_store_explicit(&dq->bottom, b + 1, memory_order_relaxed);
    return 1;
}
static int __maka_ws_pop(__maka_ws_deque_t* dq, __maka_job_entry_t* out) {
    int64_t b = atomic_load_explicit(&dq->bottom, memory_order_relaxed) - 1;
    atomic_store_explicit(&dq->bottom, b, memory_order_relaxed);
    atomic_thread_fence(memory_order_seq_cst);
    int64_t t = atomic_load_explicit(&dq->top, memory_order_relaxed);
    if (t > b) {
        atomic_store_explicit(&dq->bottom, b + 1, memory_order_relaxed);
        return 0;
    }
    *out = dq->buf[b % MAKA_WS_CAP];
    if (t == b) {
        /* Last item — race with a stealer. */
        int64_t expected = t;
        int won = atomic_compare_exchange_strong_explicit(
            &dq->top, &expected, t + 1,
            memory_order_seq_cst, memory_order_relaxed);
        atomic_store_explicit(&dq->bottom, b + 1, memory_order_relaxed);
        return won;
    }
    return 1;
}
static int __maka_ws_steal(__maka_ws_deque_t* dq, __maka_job_entry_t* out) {
    int64_t t = atomic_load_explicit(&dq->top, memory_order_acquire);
    atomic_thread_fence(memory_order_seq_cst);
    int64_t b = atomic_load_explicit(&dq->bottom, memory_order_acquire);
    if (t >= b) return 0; /* empty */
    *out = dq->buf[t % MAKA_WS_CAP];
    int64_t expected = t;
    if (!atomic_compare_exchange_strong_explicit(
            &dq->top, &expected, t + 1,
            memory_order_seq_cst, memory_order_relaxed)) {
        return 0; /* raced with someone */
    }
    return 1;
}
static void __maka_ws_run(__maka_job_entry_t* item) {
    ((void(*)(void*))item->code)(item->env);
    pthread_mutex_lock(&item->h->done_mutex);
    item->h->done_flag = 1;
    pthread_cond_broadcast(&item->h->done_cond);
    pthread_mutex_unlock(&item->h->done_mutex);
    free(item->env);
    __maka_thread_unref(item->h);
}
static void* __maka_ws_worker(void* arg) {
    int id = (int)(intptr_t)arg;
    __maka_ws_worker_id = id;
    __maka_ws_deque_t* mine = &__maka_ws_deques[id];
    int idle_iters = 0;
    while (1) {
        __maka_job_entry_t item;
        if (__maka_ws_pop(mine, &item)) {
            atomic_fetch_sub(&__maka_ws_pending, 1);
            __maka_ws_run(&item);
            idle_iters = 0; continue;
        }
        /* Try to steal from a random victim. */
        if (__maka_n_workers > 1) {
            int v = (int)(__maka_ws_rand() % (unsigned int)__maka_n_workers);
            if (v == id) v = (v + 1) % __maka_n_workers;
            if (__maka_ws_steal(&__maka_ws_deques[v], &item)) {
                atomic_fetch_sub(&__maka_ws_pending, 1);
                __maka_ws_run(&item);
                idle_iters = 0; continue;
        }
        }
        idle_iters++;
        if (idle_iters < 64) {
            for (volatile int s = 0; s < 32; s++) {}
            continue;
        }
        pthread_mutex_lock(&__maka_ws_idle_mu);
        while (atomic_load(&__maka_ws_pending) == 0) {
            pthread_cond_wait(&__maka_ws_idle_cv, &__maka_ws_idle_mu);
        }
        pthread_mutex_unlock(&__maka_ws_idle_mu);
        idle_iters = 0;
    }
}
static _Atomic int __maka_job_pool_inited = 0;
static void __maka_job_pool_init(void) {
    int expected = 0;
    if (!atomic_compare_exchange_strong(&__maka_job_pool_inited, &expected, 1)) return;
    long n = sysconf(_SC_NPROCESSORS_ONLN);
    if (n < 1) n = 1;
    if (n > 64) n = 64;
    __maka_n_workers = n;
    __maka_ws_deques = (__maka_ws_deque_t*)calloc((size_t)n, sizeof(__maka_ws_deque_t));
    for (long i = 0; i < n; i++) {
        atomic_init(&__maka_ws_deques[i].top, 0);
        atomic_init(&__maka_ws_deques[i].bottom, 0);
    }
    long started = 0;
    for (long i = 0; i < n; i++) {
        pthread_t w;
        if (pthread_create(&w, NULL, __maka_ws_worker, (void*)(intptr_t)started) == 0) {
            pthread_detach(w); started++;
        }
    }
    __maka_n_workers = started;
}
static __thread int __maka_job_rr = 0;
maka_unit* __maka_spawn_job(void* code, void* env) {
    __maka_job_pool_init();
    Thread* t = __maka_thread_new();
    t->is_job = 1;
    __maka_job_entry_t item = { code, env, t };
    if (__maka_ws_worker_id >= 0) {
        /* Caller is a worker — push to own deque (LIFO, cache-warm). */
        if (__maka_ws_push(&__maka_ws_deques[__maka_ws_worker_id], item)) {
            atomic_fetch_add(&__maka_ws_pending, 1);
            __maka_ws_notify();
            return (maka_unit*)t;
        }
    }
    /* Non-worker caller, or own deque full: round-robin push. */
    for (long try_count = 0; try_count < __maka_n_workers; try_count++) {
        int target = (__maka_job_rr + (int)try_count) % (int)__maka_n_workers;
        if (__maka_ws_push(&__maka_ws_deques[target], item)) {
            __maka_job_rr = (target + 1) % (int)__maka_n_workers;
            atomic_fetch_add(&__maka_ws_pending, 1);
            __maka_ws_notify();
            return (maka_unit*)t;
        }
    }
    /* All deques full: fall back to a dedicated pthread. */
    __maka_handle_args_t* a = (__maka_handle_args_t*)malloc(sizeof(__maka_handle_args_t));
    a->code = code; a->env = env; a->h = t;
    __maka_spawn_pthread(&t->handle, __maka_handle_entry, a, t);
    return (maka_unit*)t;
}
maka_unit* __maka_spawn(void* code, void* env) { return __maka_spawn_fiber(code, env); }
"#;

/// Waiting for one handle.
pub const JOIN: &'static str = r#"static int __maka_pp_join(void* p) { return ((Thread*)p)->done_flag == 0; }
int64_t __maka_join_result(maka_unit* h) {
    Thread* t = (Thread*)h;
    /* Fast path: already done. */
    pthread_mutex_lock(&t->done_mutex);
    int done = t->done_flag;
    pthread_mutex_unlock(&t->done_mutex);
    if (!done) {
        /* If the scheduler has ready/sleeping/fd-waiting fibers, drive
           it instead of pthread-cond-waiting (which would freeze it). */
        if (maka_sched_inited && (maka_ready_head || maka_sleep_head || maka_fd_waiters)) {
            /* Walk ready/sleep queues to find the fiber whose completion is t. */
            maka_fiber_t* target = NULL;
            for (maka_fiber_t* f = maka_ready_head; f; f = f->next) {
                if (f->completion == t) { target = f; break; }
            }
            if (!target) {
                for (maka_fiber_t* f = maka_sleep_head; f; f = f->next) {
                    if (f->completion == t) { target = f; break; }
                }
            }
            if (!target) {
                for (maka_fiber_t* f = maka_fd_waiters; f; f = f->next) {
                    if (f->completion == t) { target = f; break; }
                }
            }
            if (target) {
                maka_join_target = t; /* the Thread (outlives the fiber), not target */
                /* Switch into the scheduler; it'll swap back to us when
                   target finishes. */
                if (maka_current_fiber && maka_current_fiber != maka_anchor_fiber) {
                    maka_fiber_t* me = maka_current_fiber;
                    maka_park_req_t req = { .lock = &t->done_mutex, .head = &target->waiters,
                                            .should_park = __maka_pp_join, .arg = t };
                    maka_pending_park = &req;
                    me->state = 2;
                    swapcontext(&me->ctx, &maka_sched_ctx);
                } else {
                    swapcontext(&maka_anchor_fiber->ctx, &maka_sched_ctx);
                    maka_current_fiber = maka_anchor_fiber;
                }
                maka_join_target = NULL;
            } else {
                /* Not a fiber we own — it's a pthread thread or a job. Drive
                   scheduler ALSO so any waiting fibers can still progress
                   while we periodically poll the foreign handle. */
                while (1) {
                    pthread_mutex_lock(&t->done_mutex);
                    int d = t->done_flag;
                    pthread_mutex_unlock(&t->done_mutex);
                    if (d) break;
                    if (maka_ready_head || maka_sleep_head || maka_fd_waiters) {
                        maka_join_target = NULL;
                        if (maka_current_fiber && maka_current_fiber != maka_anchor_fiber) {
                            maka_fiber_t* me = maka_current_fiber;
                            __maka_ready_enqueue(me);
                            swapcontext(&me->ctx, &maka_sched_ctx);
                        } else {
                            swapcontext(&maka_anchor_fiber->ctx, &maka_sched_ctx);
                            maka_current_fiber = maka_anchor_fiber;
                        }
                    } else {
                        struct timespec ts = { 0, 500000 /* 0.5ms */ };
                        nanosleep(&ts, NULL);
                    }
                }
            }
        } else {
            /* No scheduler activity: classic cond_wait. */
            pthread_mutex_lock(&t->done_mutex);
            while (!t->done_flag) {
                pthread_cond_wait(&t->done_cond, &t->done_mutex);
            }
            pthread_mutex_unlock(&t->done_mutex);
        }
    }
    int64_t r = t->result;
    /* Only pthread-backed handles need pthread_join. */
    if (!t->is_job && !t->is_fiber) { if (!atomic_load(&t->is_failed)) pthread_join(t->handle, NULL); }
    __maka_thread_unref(t);
    return r;
}
void __maka_join(maka_unit* h) { (void)__maka_join_result(h); }
void __maka_detach(maka_unit* h) {
    Thread* t = (Thread*)h;
    pthread_mutex_lock(&t->done_mutex);
    int done = t->done_flag;
    pthread_mutex_unlock(&t->done_mutex);
    if (done) {
        if (!t->is_job && !t->is_fiber) { if (!atomic_load(&t->is_failed)) pthread_join(t->handle, NULL); }
        __maka_thread_unref(t);
        return;
    }
    atomic_store(&t->detached, 1);
    if (!t->is_job && !t->is_fiber) pthread_detach(t->handle);
    __maka_thread_unref(t);
}
"#;

/// Polling one handle without blocking.
pub const TRY_JOIN: &'static str = r#"int64_t __maka_try_join(maka_unit* h, int64_t* out_result) {
    Thread* t = (Thread*)h;
    pthread_mutex_lock(&t->done_mutex);
    int done = t->done_flag;
    pthread_mutex_unlock(&t->done_mutex);
    if (!done) return 0;
    if (out_result) *out_result = t->result;
    if (!t->is_job && !t->is_fiber) { if (!atomic_load(&t->is_failed)) pthread_join(t->handle, NULL); }
    __maka_thread_unref(t);
    return 1;
}
"#;

/// Waiting for one handle up to a deadline.
pub const JOIN_TIMEOUT: &'static str = r#"int64_t __maka_join_timeout(maka_unit* h, int64_t ms, int64_t* out_result) {
    int64_t deadline_ms = __maka_now_ms() + ms;
    int64_t deadline_ns = __maka_now_ns() + ms * 1000000LL;
    Thread* t = (Thread*)h;
    int64_t prev_anchor_deadline = maka_anchor_deadline_ns;
    maka_anchor_deadline_ns = deadline_ns;
    while (1) {
        pthread_mutex_lock(&t->done_mutex);
        int d = t->done_flag;
        pthread_mutex_unlock(&t->done_mutex);
        if (d) {
            maka_anchor_deadline_ns = prev_anchor_deadline;
            if (out_result) *out_result = t->result;
            if (!t->is_job && !t->is_fiber) { if (!atomic_load(&t->is_failed)) pthread_join(t->handle, NULL); }
            __maka_thread_unref(t);
            return 1;
        }
        int64_t now = __maka_now_ms();
        if (now >= deadline_ms) {
            maka_anchor_deadline_ns = prev_anchor_deadline;
            return 0;
        }
        if (maka_sched_inited && (maka_ready_head || maka_sleep_head || maka_fd_waiters)) {
            swapcontext(&maka_anchor_fiber->ctx, &maka_sched_ctx);
            maka_current_fiber = maka_anchor_fiber;
        } else {
            int64_t rem_ms = deadline_ms - now;
            if (rem_ms > 5) rem_ms = 5;
            struct timespec ts = { 0, rem_ms * 1000000LL };
            nanosleep(&ts, NULL);
        }
    }
}
"#;

/// Cancelling a fiber, a thread or a job.
pub const CANCEL: &'static str = r#"static int __maka_cancel_fiber_local(Thread* t) {
    maka_fiber_t** prev = &maka_ready_head;
    maka_fiber_t* found = NULL;
    int found_in = 0;  /* 1=ready 2=sleep 3=fd_waiters */
    while (*prev) {
        if ((*prev)->completion == t) {
            found = *prev; *prev = found->next;
            if (maka_ready_tail == found) {
                maka_fiber_t* nt = maka_ready_head;
                if (!nt) maka_ready_tail = NULL;
                else { while (nt->next) nt = nt->next; maka_ready_tail = nt; }
            }
            found_in = 1; break;
        }
        prev = &(*prev)->next;
    }
    if (!found) {
        prev = &maka_sleep_head;
        while (*prev) {
            if ((*prev)->completion == t) { found = *prev; *prev = found->next; found_in = 2; break; }
            prev = &(*prev)->next;
        }
    }
    int cancelled_fd = -1;
    if (!found) {
        prev = &maka_fd_waiters;
        while (*prev) {
            if ((*prev)->completion == t) {
                found = *prev; *prev = found->next;
                cancelled_fd = found->waiting_fd;
                found_in = 3; break;
            }
            prev = &(*prev)->next;
        }
    }
    if (!found) return 0;
    if (atomic_load(&t->aio_in_flight)) {
        if (found_in == 3) {
            found->next = maka_fd_waiters; maka_fd_waiters = found;
        } else {
            atomic_store(&found->in_queue, 0);
            __maka_ready_enqueue(found);
        }
        return 1;
    }
    free(found->entry_env); __maka_slab_free(found->slab); free(found);
    if (cancelled_fd >= 0) __maka_fd_recompute(cancelled_fd);
    pthread_mutex_lock(&t->done_mutex);
    t->done_flag = 1;
    pthread_cond_broadcast(&t->done_cond);
    pthread_mutex_unlock(&t->done_mutex);
    __maka_thread_unref(t);  /* runner-side ref */
    return 1;
}
static void __maka_remote_post_cancel(maka_sched_state_t* sched, Thread* t) {
    if (!sched) return;
    __maka_thread_ref(t);
    maka_cancel_req_t* r = (maka_cancel_req_t*)malloc(sizeof(maka_cancel_req_t));
    r->target = t;
    pthread_mutex_lock(&sched->remote_mu);
    r->next = sched->remote_cancel_head;
    sched->remote_cancel_head = r;
    int wfd = sched->wake_pipe_w;
    pthread_mutex_unlock(&sched->remote_mu);
    if (wfd > 0) { char b = 1; (void)send((int)wfd, &b, 1, 0); }
}
void __maka_cancel(maka_unit* h) {
    Thread* t = (Thread*)h;
    pthread_mutex_lock(&t->done_mutex);
    int already_done = t->done_flag;
    pthread_mutex_unlock(&t->done_mutex);
    if (already_done) { (void)__maka_join_result(h); return; }
    if (t->is_fiber) {
        atomic_store(&t->cancel_requested, 1);
        maka_sched_state_t* cand = (maka_sched_state_t*)atomic_load(&t->home_sched);
        if (cand && cand != maka_sched_state) {
            maka_sched_state_t* home = __maka_sched_validate_and_ref_epoch(cand, atomic_load_explicit(&t->home_sched_epoch, memory_order_acquire));
            if (home) {
                __maka_remote_post_cancel(home, t);
                __maka_sched_state_unref(home);
            } else {
                pthread_mutex_lock(&t->done_mutex);
                t->done_flag = 1;
                pthread_cond_broadcast(&t->done_cond);
                pthread_mutex_unlock(&t->done_mutex);
                __maka_thread_unref(t);  /* runner */
            }
            __maka_thread_unref(t);  /* spawner */
            return;
        }
        if (!__maka_cancel_fiber_local(t)) {
            pthread_mutex_lock(&__maka_pool_q.lock);
            maka_fiber_t** pq = &__maka_pool_q.head;
            maka_fiber_t* pprev = NULL;
            maka_fiber_t* pfound = NULL;
            while (*pq) {
                if ((*pq)->completion == t) {
                    pfound = *pq; *pq = pfound->next;
                    if (__maka_pool_q.tail == pfound) __maka_pool_q.tail = pprev;
                    break;
                }
                pprev = *pq;
                pq = &(*pq)->next;
            }
            pthread_mutex_unlock(&__maka_pool_q.lock);
            if (pfound) {
                pthread_mutex_lock(&t->done_mutex);
                t->done_flag = 1;
                pthread_cond_broadcast(&t->done_cond);
                pthread_mutex_unlock(&t->done_mutex);
                free(pfound->entry_env); __maka_slab_free(pfound->slab); free(pfound);
                __maka_thread_unref(t);  /* runner-side ref */
            }
        }
    } else if (!t->is_job) {
        pthread_cancel(t->handle);
        if (!atomic_load(&t->is_failed)) pthread_join(t->handle, NULL);
        __maka_thread_unref(t);  /* runner-side ref */
    }
    __maka_thread_unref(t);
}
"#;

/// Waiting for a slice of handles.
pub const JOIN_ALL: &'static str = r#"void __maka_join_all_i64(maka_unit** handles, int64_t n, int64_t* out) {
    for (int64_t i = 0; i < n; i++) {
        int64_t r = __maka_join_result(handles[i]);
        if (out) out[i] = r;
    }
}
"#;

/// Racing a slice of handles.
pub const SELECT: &'static str = r#"static int __maka_find_winner(maka_unit** handles, int64_t n) {
    for (int64_t i = 0; i < n; i++) {
        Thread* t = (Thread*)handles[i];
        pthread_mutex_lock(&t->done_mutex);
        int done = t->done_flag;
        pthread_mutex_unlock(&t->done_mutex);
        if (done) return (int)i;
    }
    return -1;
}
int64_t __maka_select_first_i64(maka_unit** handles, int64_t n, int64_t* out_index) {
    while (1) {
        int i = __maka_find_winner(handles, n);
        if (i >= 0) {
            Thread* t = (Thread*)handles[i];
            int64_t r = t->result;
            if (out_index) *out_index = (int64_t)i;
            /* Cancel losers and reap.  Fibers: walk the scheduler queues and
               remove without resuming.  pthread threads: pthread_cancel +
               pthread_join.  Jobs: just wait — cancellation isn't supported. */
            for (int64_t j = 0; j < n; j++) {
                if (j == i) continue;
                Thread* l = (Thread*)handles[j];
                if (l->is_fiber) {
                    maka_sched_state_t* lcand = (maka_sched_state_t*)atomic_load(&l->home_sched);
                    if (lcand && lcand != maka_sched_state) {
                        maka_sched_state_t* lhome = __maka_sched_validate_and_ref_epoch(lcand, atomic_load_explicit(&l->home_sched_epoch, memory_order_acquire));
                        if (lhome) {
                            __maka_remote_post_cancel(lhome, l);
                            __maka_sched_state_unref(lhome);
                        } else {
                            pthread_mutex_lock(&l->done_mutex);
                            l->done_flag = 1;
                            pthread_cond_broadcast(&l->done_cond);
                            pthread_mutex_unlock(&l->done_mutex);
                            __maka_thread_unref(l);  /* runner */
                        }
                        __maka_thread_unref(l);  /* spawner */
                        continue;
                    }
                    if (__maka_cancel_fiber_local(l)) {
                        __maka_thread_unref(l);
                    } else {
                        pthread_mutex_lock(&l->done_mutex);
                        l->done_flag = 1;
                        pthread_cond_broadcast(&l->done_cond);
                        pthread_mutex_unlock(&l->done_mutex);
                        __maka_thread_unref(l);
                    }
                } else if (!l->is_job) {
                    pthread_cancel(l->handle);
                    if (!atomic_load(&l->is_failed)) pthread_join(l->handle, NULL);
                    __maka_thread_unref(l);
                    __maka_thread_unref(l);
                } else {
                    (void)__maka_join_result(handles[j]);
                }
            }
            /* Reap the winner. */
            (void)__maka_join_result(handles[i]);
            return r;
        }
        /* No winner yet — drive scheduler so fibers can progress. */
        if (maka_sched_inited && (maka_ready_head || maka_sleep_head)) {
            maka_anchor_wake_on_finish = 1;
            swapcontext(&maka_anchor_fiber->ctx, &maka_sched_ctx);
            maka_anchor_wake_on_finish = 0;
            maka_current_fiber = maka_anchor_fiber;
        } else {
            struct timespec ts = { 0, 500000 };
            nanosleep(&ts, NULL);
        }
    }
}
"#;

/// Racing a slice of handles up to a deadline.
pub const SELECT_TIMEOUT: &'static str = r#"int64_t __maka_select_timeout_i64(maka_unit** handles, int64_t n, int64_t ms, int64_t* out_index) {
    int64_t deadline_ms = __maka_now_ms() + ms;
    int64_t deadline_ns = __maka_now_ns() + ms * 1000000LL;
    int64_t prev_anchor_deadline = maka_anchor_deadline_ns;
    maka_anchor_deadline_ns = deadline_ns;
    while (1) {
        int i = __maka_find_winner(handles, n);
        if (i >= 0) {
            maka_anchor_deadline_ns = prev_anchor_deadline;
            Thread* t = (Thread*)handles[i];
            int64_t r = t->result;
            if (out_index) *out_index = (int64_t)i;
            for (int64_t j = 0; j < n; j++) {
                if (j == i) continue;
                __maka_cancel(handles[j]);
            }
            (void)__maka_join_result(handles[i]);
            return r;
        }
        if (__maka_now_ms() >= deadline_ms) {
            maka_anchor_deadline_ns = prev_anchor_deadline;
            if (out_index) *out_index = -1;
            return -1;
        }
        if (maka_sched_inited && (maka_ready_head || maka_sleep_head || maka_fd_waiters)) {
            maka_anchor_wake_on_finish = 1;
            swapcontext(&maka_anchor_fiber->ctx, &maka_sched_ctx);
            maka_anchor_wake_on_finish = 0;
            maka_current_fiber = maka_anchor_fiber;
        } else {
            int64_t rem_ms = deadline_ms - __maka_now_ms();
            if (rem_ms > 5) rem_ms = 5;
            struct timespec ts = { 0, rem_ms * 1000000LL };
            nanosleep(&ts, NULL);
        }
    }
}
"#;

/// Sleeping the current thread or fiber.
pub const SLEEP: &'static str = r#"void __maka_sleep_ns(int64_t nanos) {
    /* Inside a cooperative fiber (not the anchor), yield with timer. */
    if (maka_current_fiber && maka_current_fiber != maka_anchor_fiber) {
        __maka_sleep_fiber(nanos);
        return;
    }
    /* On the anchor: if other fibers exist, drive the scheduler
       in short bursts instead of blocking outright.  This lets
       fibers progress while the caller is `sleeping`. */
    int64_t deadline = __maka_now_ns() + nanos;
    int64_t prev_anchor_deadline = maka_anchor_deadline_ns;
    maka_anchor_deadline_ns = deadline;
    while (1) {
        int64_t now = __maka_now_ns();
        if (now >= deadline) { maka_anchor_deadline_ns = prev_anchor_deadline; return; }
        if (maka_sched_inited && (maka_ready_head || maka_sleep_head || maka_fd_waiters)) {
            swapcontext(&maka_anchor_fiber->ctx, &maka_sched_ctx);
            maka_current_fiber = maka_anchor_fiber;
        } else {
            int64_t rem = deadline - now;
            struct timespec ts;
            ts.tv_sec = rem / 1000000000LL;
            ts.tv_nsec = rem % 1000000000LL;
            nanosleep(&ts, NULL);
            maka_anchor_deadline_ns = prev_anchor_deadline;
            return;
        }
    }
}
"#;

/// Data-parallel loops over integer ranges.
pub const PAR_RANGES: &'static str = r#"typedef struct {
    int64_t start, end;
    void (*code)(void*, int64_t);
    void* env;
    Thread* completion;
} __maka_par_chunk_t;
static void* __maka_par_chunk_entry(void* arg) {
    __maka_par_chunk_t* c = (__maka_par_chunk_t*)arg;
    for (int64_t i = c->start; i < c->end; i++) {
        c->code(c->env, i);
    }
    pthread_mutex_lock(&c->completion->done_mutex);
    c->completion->done_flag = 1;
    pthread_cond_broadcast(&c->completion->done_cond);
    pthread_mutex_unlock(&c->completion->done_mutex);
    __maka_thread_unref(c->completion);
    free(c);
    return NULL;
}
typedef struct {
    int64_t start, end;
    int64_t (*combine)(void*, int64_t, int64_t);
    void* env;
    int64_t partial;
    Thread* completion;
} __maka_reduce_chunk_t;
static void* __maka_reduce_chunk_entry(void* arg) {
    __maka_reduce_chunk_t* c = (__maka_reduce_chunk_t*)arg;
    int64_t acc = 0;
    for (int64_t i = c->start; i < c->end; i++) {
        acc = c->combine(c->env, acc, i);
    }
    c->partial = acc;
    pthread_mutex_lock(&c->completion->done_mutex);
    c->completion->done_flag = 1;
    pthread_cond_broadcast(&c->completion->done_cond);
    pthread_mutex_unlock(&c->completion->done_mutex);
    __maka_thread_unref(c->completion);
    return NULL;
}
int64_t __maka_par_reduce_int(int64_t start, int64_t end, int64_t init, void* code, void* env) {
    if (start >= end) return init;
    int64_t total = end - start;
    long nprocs = sysconf(_SC_NPROCESSORS_ONLN);
    if (nprocs < 1) nprocs = 1;
    if (nprocs > 16) nprocs = 16;
    int64_t chunks = (int64_t)nprocs;
    if (chunks > total) chunks = total;
    int64_t per = (total + chunks - 1) / chunks;
    Thread** handles = (Thread**)malloc(sizeof(Thread*) * (size_t)chunks);
    __maka_reduce_chunk_t** chunks_arr = (__maka_reduce_chunk_t**)malloc(sizeof(void*) * (size_t)chunks);
    for (int64_t c = 0; c < chunks; c++) {
        Thread* th = __maka_thread_new();
        __maka_reduce_chunk_t* ch = (__maka_reduce_chunk_t*)malloc(sizeof(__maka_reduce_chunk_t));
        ch->start = start + c * per;
        ch->end = ch->start + per; if (ch->end > end) ch->end = end;
        ch->combine = (int64_t(*)(void*, int64_t, int64_t))code;
        ch->env = env;
        ch->partial = 0;
        ch->completion = th;
        __maka_spawn_pthread(&th->handle, __maka_reduce_chunk_entry, ch, th);
        handles[c] = th; chunks_arr[c] = ch;
    }
    int64_t acc = init;
    for (int64_t c = 0; c < chunks; c++) {
        if (!atomic_load(&handles[c]->is_failed)) pthread_join(handles[c]->handle, NULL);
        /* Combine partial using the same combine function with two
           int args -- works for sum/max/min where the function
           is associative on integers regardless of the
           "index" position. */
        acc = chunks_arr[c]->combine(env, acc, chunks_arr[c]->partial);
        __maka_thread_unref(handles[c]);
        free(chunks_arr[c]);
    }
    free(handles); free(chunks_arr);
    return acc;
}
typedef struct {
    int64_t start, end;
    int64_t (*fn)(void*, int64_t);
    void* env;
    int64_t* out;        /* shared output buffer */
    Thread* completion;
} __maka_map_chunk_t;
static void* __maka_map_chunk_entry(void* arg) {
    __maka_map_chunk_t* c = (__maka_map_chunk_t*)arg;
    for (int64_t i = c->start; i < c->end; i++) {
        c->out[i] = c->fn(c->env, i);
    }
    pthread_mutex_lock(&c->completion->done_mutex);
    c->completion->done_flag = 1;
    pthread_cond_broadcast(&c->completion->done_cond);
    pthread_mutex_unlock(&c->completion->done_mutex);
    __maka_thread_unref(c->completion);
    free(c);
    return NULL;
}
Slice_maka_int __maka_par_map_int(int64_t start, int64_t end, void* code, void* env) {
    if (start >= end) {
        Slice_maka_int empty = { .ptr = NULL, .len = 0 };
        return empty;
    }
    int64_t total = end - start;
    int64_t* out = (int64_t*)malloc(sizeof(int64_t) * (size_t)total);
    long nprocs = sysconf(_SC_NPROCESSORS_ONLN);
    if (nprocs < 1) nprocs = 1;
    if (nprocs > 16) nprocs = 16;
    int64_t chunks = (int64_t)nprocs;
    if (chunks > total) chunks = total;
    int64_t per = (total + chunks - 1) / chunks;
    Thread** handles = (Thread**)malloc(sizeof(Thread*) * (size_t)chunks);
    __maka_map_chunk_t** chs = (__maka_map_chunk_t**)malloc(sizeof(void*) * (size_t)chunks);
    for (int64_t c = 0; c < chunks; c++) {
        Thread* th = __maka_thread_new();
        __maka_map_chunk_t* ch = (__maka_map_chunk_t*)malloc(sizeof(__maka_map_chunk_t));
        ch->start = start + c * per;
        ch->end = ch->start + per; if (ch->end > end) ch->end = end;
        ch->fn = (int64_t(*)(void*, int64_t))code;
        ch->env = env;
        ch->out = out - start;
        ch->completion = th;
        chs[c] = ch;
        if (__maka_spawn_pthread(&th->handle, __maka_map_chunk_entry, ch, th) != 0) {
            for (int64_t i = ch->start; i < ch->end; i++) ch->out[i] = ch->fn(ch->env, i);
        }
        handles[c] = th;
    }
    for (int64_t c = 0; c < chunks; c++) {
        int failed = atomic_load(&handles[c]->is_failed);
        if (!failed) pthread_join(handles[c]->handle, NULL);
        if (failed) free(chs[c]);
        __maka_thread_unref(handles[c]);
    }
    free(handles); free(chs);
    Slice_maka_int res = { .ptr = out, .len = total };
    return res;
}
void __maka_par_for_range(int64_t start, int64_t end, void* code, void* env) {
    if (start >= end) return;
    int64_t total = end - start;
    long nprocs = sysconf(_SC_NPROCESSORS_ONLN);
    if (nprocs < 1) nprocs = 1;
    if (nprocs > 16) nprocs = 16;
    int64_t chunks = (int64_t)nprocs;
    if (chunks > total) chunks = total;
    int64_t per = (total + chunks - 1) / chunks;
    Thread** handles = (Thread**)malloc(sizeof(Thread*) * (size_t)chunks);
    __maka_par_chunk_t** chs = (__maka_par_chunk_t**)malloc(sizeof(void*) * (size_t)chunks);
    for (int64_t c = 0; c < chunks; c++) {
        Thread* th = __maka_thread_new();
        __maka_par_chunk_t* ch = (__maka_par_chunk_t*)malloc(sizeof(__maka_par_chunk_t));
        ch->start = start + c * per;
        ch->end = ch->start + per; if (ch->end > end) ch->end = end;
        ch->code = (void(*)(void*, int64_t))code;
        ch->env = env;
        ch->completion = th;
        chs[c] = ch;
        if (__maka_spawn_pthread(&th->handle, __maka_par_chunk_entry, ch, th) != 0) {
            for (int64_t i = ch->start; i < ch->end; i++) ch->code(ch->env, i);
        }
        handles[c] = th;
    }
    for (int64_t c = 0; c < chunks; c++) {
        int failed = atomic_load(&handles[c]->is_failed);
        (void)__maka_join_result((maka_unit*)handles[c]);
        if (failed) free(chs[c]);
    }
    free(handles); free(chs);
}
"#;

/// Mutexes, wait groups and once-cells that park fibers.
pub const SYNC_PRIMITIVES: &'static str = r#"typedef struct {
    _Atomic int locked;
    pthread_mutex_t kw_mu;
    pthread_cond_t  kw_cv;
    pthread_cond_t  drained_cv;
    int             pth_waiters;
    _Atomic int     inflight_parkers;
    maka_fiber_t*   fiber_waiters;
} maka_fmutex_t;
maka_unit* maka_fmutex_new(void) {
    maka_fmutex_t* m = (maka_fmutex_t*)calloc(1, sizeof(maka_fmutex_t));
    atomic_init(&m->locked, 0);
    pthread_mutex_init(&m->kw_mu, NULL);
    pthread_cond_init(&m->kw_cv, NULL);
    pthread_cond_init(&m->drained_cv, NULL);
    return (maka_unit*)m;
}
static int __maka_pp_fmutex(void* p) { return atomic_load(&((maka_fmutex_t*)p)->locked) != 0; }
void maka_fmutex_lock(maka_unit* p) {
    maka_fmutex_t* m = (maka_fmutex_t*)p;
    while (1) {
        int expected = 0;
        if (atomic_compare_exchange_strong(&m->locked, &expected, 1)) return;
        if (maka_current_fiber && maka_current_fiber != maka_anchor_fiber) {
            pthread_mutex_lock(&m->kw_mu);
            if (atomic_load(&m->locked) == 0) { pthread_mutex_unlock(&m->kw_mu); continue; }
            atomic_fetch_add(&m->inflight_parkers, 1);
            pthread_mutex_unlock(&m->kw_mu);
            maka_fiber_t* me = maka_current_fiber;
            maka_park_req_t req = { .lock = &m->kw_mu, .head = &m->fiber_waiters,
                                    .should_park = __maka_pp_fmutex, .arg = m,
                                    .inflight = &m->inflight_parkers, .drained_cv = &m->drained_cv };
            maka_pending_park = &req;
            me->state = 2;
            swapcontext(&me->ctx, &maka_sched_ctx);
        } else if (maka_sched_inited && (maka_ready_head || maka_sleep_head || maka_fd_waiters)) {
            swapcontext(&maka_anchor_fiber->ctx, &maka_sched_ctx);
            maka_current_fiber = maka_anchor_fiber;
        } else {
            pthread_mutex_lock(&m->kw_mu);
            m->pth_waiters++;
            while (atomic_load(&m->locked) != 0) pthread_cond_wait(&m->kw_cv, &m->kw_mu);
            m->pth_waiters--;
            if (m->pth_waiters == 0) pthread_cond_signal(&m->drained_cv);
            pthread_mutex_unlock(&m->kw_mu);
        }
    }
}
void maka_fmutex_unlock(maka_unit* p) {
    maka_fmutex_t* m = (maka_fmutex_t*)p;
    pthread_mutex_lock(&m->kw_mu);
    atomic_store(&m->locked, 0);
    maka_fiber_t* w = m->fiber_waiters;
    if (w) { m->fiber_waiters = w->next_waiter; w->next_waiter = NULL; }
    pthread_cond_signal(&m->kw_cv);
    pthread_mutex_unlock(&m->kw_mu);
    if (w) __maka_ready_enqueue(w);
}
void maka_fmutex_destroy(maka_unit* p) {
    maka_fmutex_t* m = (maka_fmutex_t*)p;
    pthread_mutex_lock(&m->kw_mu);
    atomic_store(&m->locked, 0);
    pthread_cond_broadcast(&m->kw_cv);
    while (1) {
        maka_fiber_t* w = m->fiber_waiters; m->fiber_waiters = NULL;
        if (w) {
            pthread_mutex_unlock(&m->kw_mu);
            while (w) { maka_fiber_t* nx = w->next_waiter; w->next_waiter = NULL; __maka_ready_enqueue(w); w = nx; }
            pthread_mutex_lock(&m->kw_mu);
            continue;
        }
        if (m->pth_waiters > 0 || atomic_load(&m->inflight_parkers) > 0) {
            pthread_cond_wait(&m->drained_cv, &m->kw_mu);
            continue;
        }
        break;
    }
    pthread_mutex_unlock(&m->kw_mu);
    pthread_mutex_destroy(&m->kw_mu); pthread_cond_destroy(&m->kw_cv); pthread_cond_destroy(&m->drained_cv);
    free(m);
}
typedef struct {
    _Atomic int64_t count;
    pthread_mutex_t kw_mu;
    pthread_cond_t  kw_cv;
    pthread_cond_t  drained_cv;
    int             pth_waiters;
    _Atomic int     inflight_parkers;
    maka_fiber_t*   fiber_waiters;
} maka_wg_t;
maka_unit* maka_wg_new(void) {
    maka_wg_t* w = (maka_wg_t*)calloc(1, sizeof(maka_wg_t));
    atomic_init(&w->count, 0);
    pthread_mutex_init(&w->kw_mu, NULL);
    pthread_cond_init(&w->kw_cv, NULL);
    pthread_cond_init(&w->drained_cv, NULL);
    return (maka_unit*)w;
}
void maka_wg_add(maka_unit* p, int64_t n) {
    atomic_fetch_add(&((maka_wg_t*)p)->count, n);
}
void maka_wg_done(maka_unit* p) {
    maka_wg_t* w = (maka_wg_t*)p;
    int64_t prev = atomic_fetch_sub(&w->count, 1);
    if (prev <= 1) {
        pthread_mutex_lock(&w->kw_mu);
        maka_fiber_t* head = w->fiber_waiters;
        w->fiber_waiters = NULL;
        pthread_cond_broadcast(&w->kw_cv);
        pthread_mutex_unlock(&w->kw_mu);
        while (head) {
            maka_fiber_t* nx = head->next_waiter; head->next_waiter = NULL;
            __maka_ready_enqueue(head); head = nx;
        }
    }
}
static int __maka_pp_wg(void* p) { return atomic_load(&((maka_wg_t*)p)->count) > 0; }
void maka_wg_wait(maka_unit* p) {
    maka_wg_t* w = (maka_wg_t*)p;
    while (atomic_load(&w->count) > 0) {
        if (maka_current_fiber && maka_current_fiber != maka_anchor_fiber) {
            pthread_mutex_lock(&w->kw_mu);
            if (atomic_load(&w->count) == 0) { pthread_mutex_unlock(&w->kw_mu); break; }
            atomic_fetch_add(&w->inflight_parkers, 1);
            pthread_mutex_unlock(&w->kw_mu);
            maka_fiber_t* me = maka_current_fiber;
            maka_park_req_t req = { .lock = &w->kw_mu, .head = &w->fiber_waiters,
                                    .should_park = __maka_pp_wg, .arg = w,
                                    .inflight = &w->inflight_parkers, .drained_cv = &w->drained_cv };
            maka_pending_park = &req;
            me->state = 2;
            swapcontext(&me->ctx, &maka_sched_ctx);
        } else if (maka_sched_inited && (maka_ready_head || maka_sleep_head || maka_fd_waiters)) {
            /* On the anchor: drive the scheduler so fibers can complete
               and call wg_done.  pthread_cond_wait would freeze them. */
            swapcontext(&maka_anchor_fiber->ctx, &maka_sched_ctx);
            maka_current_fiber = maka_anchor_fiber;
        } else {
            pthread_mutex_lock(&w->kw_mu);
            w->pth_waiters++;
            while (atomic_load(&w->count) > 0) pthread_cond_wait(&w->kw_cv, &w->kw_mu);
            w->pth_waiters--;
            if (w->pth_waiters == 0) pthread_cond_signal(&w->drained_cv);
            pthread_mutex_unlock(&w->kw_mu);
        }
    }
}
void maka_wg_destroy(maka_unit* p) {
    maka_wg_t* w = (maka_wg_t*)p;
    pthread_mutex_lock(&w->kw_mu);
    atomic_store(&w->count, 0);
    pthread_cond_broadcast(&w->kw_cv);
    while (1) {
        maka_fiber_t* head = w->fiber_waiters; w->fiber_waiters = NULL;
        if (head) {
            pthread_mutex_unlock(&w->kw_mu);
            while (head) { maka_fiber_t* nx = head->next_waiter; head->next_waiter = NULL; __maka_ready_enqueue(head); head = nx; }
            pthread_mutex_lock(&w->kw_mu);
            continue;
        }
        if (w->pth_waiters > 0 || atomic_load(&w->inflight_parkers) > 0) {
            pthread_cond_wait(&w->drained_cv, &w->kw_mu);
            continue;
        }
        break;
    }
    pthread_mutex_unlock(&w->kw_mu);
    pthread_mutex_destroy(&w->kw_mu); pthread_cond_destroy(&w->kw_cv); pthread_cond_destroy(&w->drained_cv);
    free(w);
}
typedef struct {
    _Atomic int state;
    _Atomic int runner_in_flight;
    _Atomic int inflight_parkers;
    pthread_mutex_t mu;
    pthread_cond_t  cv;
    pthread_cond_t  drained_cv;
    int             waiters;
    maka_fiber_t*   fiber_waiters;
} maka_once_t;
maka_unit* maka_once_new(void) {
    maka_once_t* o = (maka_once_t*)calloc(1, sizeof(maka_once_t));
    atomic_init(&o->state, 0);
    pthread_mutex_init(&o->mu, NULL);
    pthread_cond_init(&o->cv, NULL);
    pthread_cond_init(&o->drained_cv, NULL);
    return (maka_unit*)o;
}
static int __maka_pp_once(void* p) { return atomic_load(&((maka_once_t*)p)->state) != 2; }
void maka_once_do(maka_unit* p, void* code, void* env) {
    maka_once_t* o = (maka_once_t*)p;
    int expected = 0;
    if (atomic_compare_exchange_strong(&o->state, &expected, 1)) {
        atomic_fetch_add(&o->runner_in_flight, 1);
        ((void(*)(void*))code)(env);
        pthread_mutex_lock(&o->mu);
        atomic_store(&o->state, 2);
        maka_fiber_t* head = o->fiber_waiters; o->fiber_waiters = NULL;
        pthread_cond_broadcast(&o->cv);
        atomic_fetch_sub(&o->runner_in_flight, 1);
        pthread_cond_signal(&o->drained_cv);
        pthread_mutex_unlock(&o->mu);
        while (head) { maka_fiber_t* nx = head->next_waiter; head->next_waiter = NULL; __maka_ready_enqueue(head); head = nx; }
        return;
    }
    if (maka_current_fiber && maka_current_fiber != maka_anchor_fiber) {
        pthread_mutex_lock(&o->mu);
        if (atomic_load(&o->state) == 2) { pthread_mutex_unlock(&o->mu); return; }
        atomic_fetch_add(&o->inflight_parkers, 1);
        pthread_mutex_unlock(&o->mu);
        maka_fiber_t* me = maka_current_fiber;
        maka_park_req_t req = { .lock = &o->mu, .head = &o->fiber_waiters,
                                .should_park = __maka_pp_once, .arg = o,
                                .inflight = &o->inflight_parkers, .drained_cv = &o->drained_cv };
        maka_pending_park = &req;
        me->state = 2;
        swapcontext(&me->ctx, &maka_sched_ctx);
        return;
    }
    pthread_mutex_lock(&o->mu);
    o->waiters++;
    while (atomic_load(&o->state) != 2) pthread_cond_wait(&o->cv, &o->mu);
    o->waiters--;
    if (o->waiters == 0) pthread_cond_signal(&o->drained_cv);
    pthread_mutex_unlock(&o->mu);
}
void maka_once_destroy(maka_unit* p) {
    maka_once_t* o = (maka_once_t*)p;
    pthread_mutex_lock(&o->mu);
    atomic_store(&o->state, 2);
    pthread_cond_broadcast(&o->cv);
    while (1) {
        maka_fiber_t* head = o->fiber_waiters; o->fiber_waiters = NULL;
        if (head) {
            pthread_mutex_unlock(&o->mu);
            while (head) { maka_fiber_t* nx = head->next_waiter; head->next_waiter = NULL; __maka_ready_enqueue(head); head = nx; }
            pthread_mutex_lock(&o->mu);
            continue;
        }
        if (o->waiters > 0 || atomic_load(&o->runner_in_flight) > 0 || atomic_load(&o->inflight_parkers) > 0) {
            pthread_cond_wait(&o->drained_cv, &o->mu);
            continue;
        }
        break;
    }
    pthread_mutex_unlock(&o->mu);
    pthread_mutex_destroy(&o->mu); pthread_cond_destroy(&o->cv); pthread_cond_destroy(&o->drained_cv);
    free(o);
}
void maka_chan_bytes_recv(maka_unit* p, maka_unit* dst) {
    maka_bchan_t* c = (maka_bchan_t*)p;
    while (1) {
        pthread_mutex_lock(&c->m);
        maka_bnode_t* n = c->head;
        if (n) {
            c->head = n->next; if (!c->head) c->tail = NULL;
            c->count--;
            memcpy((void*)dst, n->data, (size_t)c->item_size);
            pthread_mutex_unlock(&c->m);
            free(n);
            return;
        }
        if (c->closed) {
            memset((void*)dst, 0, (size_t)c->item_size);
            pthread_mutex_unlock(&c->m);
            return;
        }
        pthread_mutex_unlock(&c->m);
        if (maka_sched_inited && maka_current_fiber == maka_anchor_fiber
            && (maka_ready_head || maka_sleep_head || maka_fd_waiters)) {
            swapcontext(&maka_anchor_fiber->ctx, &maka_sched_ctx);
            maka_current_fiber = maka_anchor_fiber;
            continue;
        }
        pthread_mutex_lock(&c->m);
        c->waiters++;
        while (!c->head && !c->closed) pthread_cond_wait(&c->c, &c->m);
        c->waiters--;
        if (c->waiters == 0) pthread_cond_signal(&c->drained_cv);
        pthread_mutex_unlock(&c->m);
    }
}
"#;

/// Data-parallel operations over integer slices.
pub const PAR_INT_SLICES: &'static str = r#"typedef struct {
    int64_t i_start, i_end;
    int64_t* in_ptr;
    void* env;
    Thread* completion;
    union { void (*body)(void*, int64_t);
            int64_t (*fn)(void*, int64_t);
            int (*pred)(void*, int64_t);
            int64_t (*combine)(void*, int64_t, int64_t); } code;
    int64_t init;     /* reduce/scan seed */
    int64_t out_acc;  /* reduce result, scan offset */
    int64_t* out_ptr; /* map/scan/filter output */
    int64_t  out_len; /* filter: count written */
} __maka_slice_chunk_t;
static void* __maka_par_each_entry(void* arg) {
    __maka_slice_chunk_t* c = (__maka_slice_chunk_t*)arg;
    for (int64_t i = c->i_start; i < c->i_end; i++) c->code.body(c->env, c->in_ptr[i]);
    pthread_mutex_lock(&c->completion->done_mutex);
    c->completion->done_flag = 1;
    pthread_cond_broadcast(&c->completion->done_cond);
    pthread_mutex_unlock(&c->completion->done_mutex);
    __maka_thread_unref(c->completion);
    free(c); return NULL;
}
void __maka_par_for_each_i64(Slice_maka_int s, void* code, void* env) {
    if (s.len <= 0) return;
    long nprocs = sysconf(_SC_NPROCESSORS_ONLN);
    if (nprocs < 1) nprocs = 1; if (nprocs > 16) nprocs = 16;
    int64_t chunks = (int64_t)nprocs;
    if (chunks > s.len) chunks = s.len;
    int64_t per = (s.len + chunks - 1) / chunks;
    Thread** hs = (Thread**)malloc(sizeof(Thread*) * (size_t)chunks);
    for (int64_t c = 0; c < chunks; c++) {
        Thread* th = __maka_thread_new();
        __maka_slice_chunk_t* ch = (__maka_slice_chunk_t*)calloc(1, sizeof(__maka_slice_chunk_t));
        ch->i_start = c * per; ch->i_end = ch->i_start + per;
        if (ch->i_end > s.len) ch->i_end = s.len;
        ch->in_ptr = s.ptr; ch->env = env; ch->completion = th;
        ch->code.body = (void(*)(void*, int64_t))code;
        __maka_spawn_pthread(&th->handle, __maka_par_each_entry, ch, th);
        hs[c] = th;
    }
    for (int64_t c = 0; c < chunks; c++) (void)__maka_join_result((maka_unit*)hs[c]);
    free(hs);
}
static void* __maka_par_map_slice_entry(void* arg) {
    __maka_slice_chunk_t* c = (__maka_slice_chunk_t*)arg;
    for (int64_t i = c->i_start; i < c->i_end; i++) c->out_ptr[i] = c->code.fn(c->env, c->in_ptr[i]);
    pthread_mutex_lock(&c->completion->done_mutex);
    c->completion->done_flag = 1;
    pthread_cond_broadcast(&c->completion->done_cond);
    pthread_mutex_unlock(&c->completion->done_mutex);
    __maka_thread_unref(c->completion);
    free(c); return NULL;
}
Slice_maka_int __maka_par_map_int_slice(Slice_maka_int s, void* code, void* env) {
    Slice_maka_int empty = { .ptr = NULL, .len = 0 };
    if (s.len <= 0) return empty;
    int64_t* out = (int64_t*)malloc(sizeof(int64_t) * (size_t)s.len);
    long nprocs = sysconf(_SC_NPROCESSORS_ONLN);
    if (nprocs < 1) nprocs = 1; if (nprocs > 16) nprocs = 16;
    int64_t chunks = (int64_t)nprocs;
    if (chunks > s.len) chunks = s.len;
    int64_t per = (s.len + chunks - 1) / chunks;
    Thread** hs = (Thread**)malloc(sizeof(Thread*) * (size_t)chunks);
    for (int64_t c = 0; c < chunks; c++) {
        Thread* th = __maka_thread_new();
        __maka_slice_chunk_t* ch = (__maka_slice_chunk_t*)calloc(1, sizeof(__maka_slice_chunk_t));
        ch->i_start = c * per; ch->i_end = ch->i_start + per;
        if (ch->i_end > s.len) ch->i_end = s.len;
        ch->in_ptr = s.ptr; ch->out_ptr = out; ch->env = env; ch->completion = th;
        ch->code.fn = (int64_t(*)(void*, int64_t))code;
        __maka_spawn_pthread(&th->handle, __maka_par_map_slice_entry, ch, th);
        hs[c] = th;
    }
    for (int64_t c = 0; c < chunks; c++) (void)__maka_join_result((maka_unit*)hs[c]);
    free(hs);
    Slice_maka_int res = { .ptr = out, .len = s.len };
    return res;
}
static void* __maka_par_reduce_slice_entry(void* arg) {
    __maka_slice_chunk_t* c = (__maka_slice_chunk_t*)arg;
    int64_t acc = c->init;
    for (int64_t i = c->i_start; i < c->i_end; i++) acc = c->code.combine(c->env, acc, c->in_ptr[i]);
    c->out_acc = acc;
    pthread_mutex_lock(&c->completion->done_mutex);
    c->completion->done_flag = 1;
    pthread_cond_broadcast(&c->completion->done_cond);
    pthread_mutex_unlock(&c->completion->done_mutex);
    __maka_thread_unref(c->completion);
    return NULL;
}
int64_t __maka_par_reduce_int_slice(Slice_maka_int s, int64_t init, void* code, void* env) {
    if (s.len <= 0) return init;
    long nprocs = sysconf(_SC_NPROCESSORS_ONLN);
    if (nprocs < 1) nprocs = 1; if (nprocs > 16) nprocs = 16;
    int64_t chunks = (int64_t)nprocs;
    if (chunks > s.len) chunks = s.len;
    int64_t per = (s.len + chunks - 1) / chunks;
    Thread** hs = (Thread**)malloc(sizeof(Thread*) * (size_t)chunks);
    __maka_slice_chunk_t** chs = (__maka_slice_chunk_t**)malloc(sizeof(void*) * (size_t)chunks);
    for (int64_t c = 0; c < chunks; c++) {
        Thread* th = __maka_thread_new();
        __maka_slice_chunk_t* ch = (__maka_slice_chunk_t*)calloc(1, sizeof(__maka_slice_chunk_t));
        ch->i_start = c * per; ch->i_end = ch->i_start + per;
        if (ch->i_end > s.len) ch->i_end = s.len;
        ch->in_ptr = s.ptr; ch->env = env; ch->completion = th; ch->init = init;
        ch->code.combine = (int64_t(*)(void*, int64_t, int64_t))code;
        chs[c] = ch;
        __maka_spawn_pthread(&th->handle, __maka_par_reduce_slice_entry, ch, th);
        hs[c] = th;
    }
    int64_t acc = init;
    int64_t (*combine)(void*, int64_t, int64_t) = (int64_t(*)(void*, int64_t, int64_t))code;
    int merged_first = 0;
    for (int64_t c = 0; c < chunks; c++) {
        if (!atomic_load(&hs[c]->is_failed)) pthread_join(hs[c]->handle, NULL);
        if (!merged_first) { acc = chs[c]->out_acc; merged_first = 1; }
        else { acc = combine(env, acc, chs[c]->out_acc); }
        __maka_thread_unref(hs[c]);
        free(chs[c]);
    }
    free(hs); free(chs);
    return acc;
}
static void* __maka_par_filter_entry(void* arg) {
    __maka_slice_chunk_t* c = (__maka_slice_chunk_t*)arg;
    int64_t w = 0;
    for (int64_t i = c->i_start; i < c->i_end; i++) {
        int64_t v = c->in_ptr[i];
        if (c->code.pred(c->env, v)) c->out_ptr[w++] = v;
    }
    c->out_len = w;
    pthread_mutex_lock(&c->completion->done_mutex);
    c->completion->done_flag = 1;
    pthread_cond_broadcast(&c->completion->done_cond);
    pthread_mutex_unlock(&c->completion->done_mutex);
    __maka_thread_unref(c->completion);
    return NULL;
}
Slice_maka_int __maka_par_filter_int(Slice_maka_int s, void* code, void* env) {
    Slice_maka_int empty = { .ptr = NULL, .len = 0 };
    if (s.len <= 0) return empty;
    long nprocs = sysconf(_SC_NPROCESSORS_ONLN);
    if (nprocs < 1) nprocs = 1; if (nprocs > 16) nprocs = 16;
    int64_t chunks = (int64_t)nprocs;
    if (chunks > s.len) chunks = s.len;
    int64_t per = (s.len + chunks - 1) / chunks;
    int64_t* tmp = (int64_t*)malloc(sizeof(int64_t) * (size_t)s.len);
    Thread** hs = (Thread**)malloc(sizeof(Thread*) * (size_t)chunks);
    __maka_slice_chunk_t** chs = (__maka_slice_chunk_t**)malloc(sizeof(void*) * (size_t)chunks);
    for (int64_t c = 0; c < chunks; c++) {
        Thread* th = __maka_thread_new();
        __maka_slice_chunk_t* ch = (__maka_slice_chunk_t*)calloc(1, sizeof(__maka_slice_chunk_t));
        ch->i_start = c * per; ch->i_end = ch->i_start + per;
        if (ch->i_end > s.len) ch->i_end = s.len;
        ch->in_ptr = s.ptr; ch->out_ptr = tmp + ch->i_start;
        ch->env = env; ch->completion = th;
        ch->code.pred = (int(*)(void*, int64_t))code;
        chs[c] = ch;
        __maka_spawn_pthread(&th->handle, __maka_par_filter_entry, ch, th);
        hs[c] = th;
    }
    int64_t total = 0;
    for (int64_t c = 0; c < chunks; c++) {
        if (!atomic_load(&hs[c]->is_failed)) pthread_join(hs[c]->handle, NULL);
        total += chs[c]->out_len;
    }
    int64_t* out = (int64_t*)malloc(sizeof(int64_t) * (size_t)(total > 0 ? total : 1));
    int64_t w = 0;
    for (int64_t c = 0; c < chunks; c++) {
        memcpy(out + w, tmp + chs[c]->i_start, sizeof(int64_t) * (size_t)chs[c]->out_len);
        w += chs[c]->out_len;
        __maka_thread_unref(hs[c]);
        free(chs[c]);
    }
    free(hs); free(chs); free(tmp);
    Slice_maka_int res = { .ptr = out, .len = total };
    return res;
}
"#;

/// Data-parallel operations over float slices.
pub const PAR_FLOAT_SLICES: &'static str = r#"typedef struct {
    int64_t i_start, i_end;
    double* in_ptr; double* out_ptr;
    void* env;
    Thread* completion;
    union { void (*body)(void*, double);
            double (*fn)(void*, double);
            double (*combine)(void*, double, double);
            int  (*pred)(void*, double); } code;
    double init;
    double out_acc;
    int64_t out_len;
} __maka_fslice_chunk_t;
static void* __maka_par_each_f_entry(void* arg) {
    __maka_fslice_chunk_t* c = (__maka_fslice_chunk_t*)arg;
    for (int64_t i = c->i_start; i < c->i_end; i++) c->code.body(c->env, c->in_ptr[i]);
    pthread_mutex_lock(&c->completion->done_mutex);
    c->completion->done_flag = 1;
    pthread_cond_broadcast(&c->completion->done_cond);
    pthread_mutex_unlock(&c->completion->done_mutex);
    __maka_thread_unref(c->completion);
    free(c); return NULL;
}
void __maka_par_for_each_f64(Slice_maka_float s, void* code, void* env) {
    if (s.len <= 0) return;
    long nprocs = sysconf(_SC_NPROCESSORS_ONLN);
    if (nprocs < 1) nprocs = 1; if (nprocs > 16) nprocs = 16;
    int64_t chunks = (int64_t)nprocs;
    if (chunks > s.len) chunks = s.len;
    int64_t per = (s.len + chunks - 1) / chunks;
    Thread** hs = (Thread**)malloc(sizeof(Thread*) * (size_t)chunks);
    for (int64_t c = 0; c < chunks; c++) {
        Thread* th = __maka_thread_new();
        __maka_fslice_chunk_t* ch = (__maka_fslice_chunk_t*)calloc(1, sizeof(__maka_fslice_chunk_t));
        ch->i_start = c * per; ch->i_end = ch->i_start + per;
        if (ch->i_end > s.len) ch->i_end = s.len;
        ch->in_ptr = s.ptr; ch->env = env; ch->completion = th;
        ch->code.body = (void(*)(void*, double))code;
        __maka_spawn_pthread(&th->handle, __maka_par_each_f_entry, ch, th);
        hs[c] = th;
    }
    for (int64_t c = 0; c < chunks; c++) (void)__maka_join_result((maka_unit*)hs[c]);
    free(hs);
}
static void* __maka_par_map_f_entry(void* arg) {
    __maka_fslice_chunk_t* c = (__maka_fslice_chunk_t*)arg;
    for (int64_t i = c->i_start; i < c->i_end; i++) c->out_ptr[i] = c->code.fn(c->env, c->in_ptr[i]);
    pthread_mutex_lock(&c->completion->done_mutex);
    c->completion->done_flag = 1;
    pthread_cond_broadcast(&c->completion->done_cond);
    pthread_mutex_unlock(&c->completion->done_mutex);
    __maka_thread_unref(c->completion);
    free(c); return NULL;
}
Slice_maka_float __maka_par_map_float(Slice_maka_float s, void* code, void* env) {
    Slice_maka_float empty = { .ptr = NULL, .len = 0 };
    if (s.len <= 0) return empty;
    double* out = (double*)malloc(sizeof(double) * (size_t)s.len);
    long nprocs = sysconf(_SC_NPROCESSORS_ONLN);
    if (nprocs < 1) nprocs = 1; if (nprocs > 16) nprocs = 16;
    int64_t chunks = (int64_t)nprocs;
    if (chunks > s.len) chunks = s.len;
    int64_t per = (s.len + chunks - 1) / chunks;
    Thread** hs = (Thread**)malloc(sizeof(Thread*) * (size_t)chunks);
    for (int64_t c = 0; c < chunks; c++) {
        Thread* th = __maka_thread_new();
        __maka_fslice_chunk_t* ch = (__maka_fslice_chunk_t*)calloc(1, sizeof(__maka_fslice_chunk_t));
        ch->i_start = c * per; ch->i_end = ch->i_start + per;
        if (ch->i_end > s.len) ch->i_end = s.len;
        ch->in_ptr = s.ptr; ch->out_ptr = out; ch->env = env; ch->completion = th;
        ch->code.fn = (double(*)(void*, double))code;
        __maka_spawn_pthread(&th->handle, __maka_par_map_f_entry, ch, th);
        hs[c] = th;
    }
    for (int64_t c = 0; c < chunks; c++) (void)__maka_join_result((maka_unit*)hs[c]);
    free(hs);
    Slice_maka_float res = { .ptr = out, .len = s.len };
    return res;
}
static void* __maka_par_reduce_f_entry(void* arg) {
    __maka_fslice_chunk_t* c = (__maka_fslice_chunk_t*)arg;
    double acc = c->init;
    for (int64_t i = c->i_start; i < c->i_end; i++) acc = c->code.combine(c->env, acc, c->in_ptr[i]);
    c->out_acc = acc;
    pthread_mutex_lock(&c->completion->done_mutex);
    c->completion->done_flag = 1;
    pthread_cond_broadcast(&c->completion->done_cond);
    pthread_mutex_unlock(&c->completion->done_mutex);
    __maka_thread_unref(c->completion);
    return NULL;
}
double __maka_par_reduce_float(Slice_maka_float s, double init, void* code, void* env) {
    if (s.len <= 0) return init;
    long nprocs = sysconf(_SC_NPROCESSORS_ONLN);
    if (nprocs < 1) nprocs = 1; if (nprocs > 16) nprocs = 16;
    int64_t chunks = (int64_t)nprocs;
    if (chunks > s.len) chunks = s.len;
    int64_t per = (s.len + chunks - 1) / chunks;
    Thread** hs = (Thread**)malloc(sizeof(Thread*) * (size_t)chunks);
    __maka_fslice_chunk_t** chs = (__maka_fslice_chunk_t**)malloc(sizeof(void*) * (size_t)chunks);
    for (int64_t c = 0; c < chunks; c++) {
        Thread* th = __maka_thread_new();
        __maka_fslice_chunk_t* ch = (__maka_fslice_chunk_t*)calloc(1, sizeof(__maka_fslice_chunk_t));
        ch->i_start = c * per; ch->i_end = ch->i_start + per;
        if (ch->i_end > s.len) ch->i_end = s.len;
        ch->in_ptr = s.ptr; ch->env = env; ch->completion = th; ch->init = init;
        ch->code.combine = (double(*)(void*, double, double))code;
        chs[c] = ch;
        __maka_spawn_pthread(&th->handle, __maka_par_reduce_f_entry, ch, th);
        hs[c] = th;
    }
    double acc = init;
    double (*combine)(void*, double, double) = (double(*)(void*, double, double))code;
    int merged_first = 0;
    for (int64_t c = 0; c < chunks; c++) {
        if (!atomic_load(&hs[c]->is_failed)) pthread_join(hs[c]->handle, NULL);
        if (!merged_first) { acc = chs[c]->out_acc; merged_first = 1; }
        else { acc = combine(env, acc, chs[c]->out_acc); }
        __maka_thread_unref(hs[c]);
        free(chs[c]);
    }
    free(hs); free(chs);
    return acc;
}
static void* __maka_par_filter_f_entry(void* arg) {
    __maka_fslice_chunk_t* c = (__maka_fslice_chunk_t*)arg;
    int64_t w = 0;
    for (int64_t i = c->i_start; i < c->i_end; i++) {
        if (c->code.pred(c->env, c->in_ptr[i])) c->out_ptr[w++] = c->in_ptr[i];
    }
    c->out_len = w;
    pthread_mutex_lock(&c->completion->done_mutex);
    c->completion->done_flag = 1;
    pthread_cond_broadcast(&c->completion->done_cond);
    pthread_mutex_unlock(&c->completion->done_mutex);
    __maka_thread_unref(c->completion);
    return NULL;
}
Slice_maka_float __maka_par_filter_float(Slice_maka_float s, void* code, void* env) {
    Slice_maka_float empty = { .ptr = NULL, .len = 0 };
    if (s.len <= 0) return empty;
    long nprocs = sysconf(_SC_NPROCESSORS_ONLN);
    if (nprocs < 1) nprocs = 1; if (nprocs > 16) nprocs = 16;
    int64_t chunks = (int64_t)nprocs;
    if (chunks > s.len) chunks = s.len;
    int64_t per = (s.len + chunks - 1) / chunks;
    double* tmp = (double*)malloc(sizeof(double) * (size_t)s.len);
    Thread** hs = (Thread**)malloc(sizeof(Thread*) * (size_t)chunks);
    __maka_fslice_chunk_t** chs = (__maka_fslice_chunk_t**)malloc(sizeof(void*) * (size_t)chunks);
    for (int64_t c = 0; c < chunks; c++) {
        Thread* th = __maka_thread_new();
        __maka_fslice_chunk_t* ch = (__maka_fslice_chunk_t*)calloc(1, sizeof(__maka_fslice_chunk_t));
        ch->i_start = c * per; ch->i_end = ch->i_start + per;
        if (ch->i_end > s.len) ch->i_end = s.len;
        ch->in_ptr = s.ptr; ch->out_ptr = tmp + ch->i_start;
        ch->env = env; ch->completion = th;
        ch->code.pred = (int(*)(void*, double))code;
        chs[c] = ch;
        __maka_spawn_pthread(&th->handle, __maka_par_filter_f_entry, ch, th);
        hs[c] = th;
    }
    int64_t total = 0;
    for (int64_t c = 0; c < chunks; c++) {
        if (!atomic_load(&hs[c]->is_failed)) pthread_join(hs[c]->handle, NULL);
        total += chs[c]->out_len;
    }
    double* out = (double*)malloc(sizeof(double) * (size_t)(total > 0 ? total : 1));
    int64_t w = 0;
    for (int64_t c = 0; c < chunks; c++) {
        memcpy(out + w, tmp + chs[c]->i_start, sizeof(double) * (size_t)chs[c]->out_len);
        w += chs[c]->out_len;
        __maka_thread_unref(hs[c]);
        free(chs[c]);
    }
    free(hs); free(chs); free(tmp);
    Slice_maka_float res = { .ptr = out, .len = total };
    return res;
}
static void* __maka_par_scan_f_local_entry(void* arg) {
    __maka_fslice_chunk_t* c = (__maka_fslice_chunk_t*)arg;
    if (c->i_start < c->i_end) {
        double acc = c->in_ptr[c->i_start];
        c->out_ptr[c->i_start] = acc;
        for (int64_t i = c->i_start + 1; i < c->i_end; i++) {
            acc = c->code.combine(c->env, acc, c->in_ptr[i]);
            c->out_ptr[i] = acc;
        }
        c->out_acc = acc;
    }
    pthread_mutex_lock(&c->completion->done_mutex);
    c->completion->done_flag = 1;
    pthread_cond_broadcast(&c->completion->done_cond);
    pthread_mutex_unlock(&c->completion->done_mutex);
    __maka_thread_unref(c->completion);
    return NULL;
}
static void* __maka_par_scan_f_offset_entry(void* arg) {
    __maka_fslice_chunk_t* c = (__maka_fslice_chunk_t*)arg;
    for (int64_t i = c->i_start; i < c->i_end; i++) {
        c->out_ptr[i] = c->code.combine(c->env, c->init, c->out_ptr[i]);
    }
    pthread_mutex_lock(&c->completion->done_mutex);
    c->completion->done_flag = 1;
    pthread_cond_broadcast(&c->completion->done_cond);
    pthread_mutex_unlock(&c->completion->done_mutex);
    __maka_thread_unref(c->completion);
    return NULL;
}
Slice_maka_float __maka_par_scan_float(Slice_maka_float s, void* code, void* env) {
    Slice_maka_float empty = { .ptr = NULL, .len = 0 };
    if (s.len <= 0) return empty;
    double* out = (double*)malloc(sizeof(double) * (size_t)s.len);
    long nprocs = sysconf(_SC_NPROCESSORS_ONLN);
    if (nprocs < 1) nprocs = 1; if (nprocs > 16) nprocs = 16;
    int64_t chunks = (int64_t)nprocs;
    if (chunks > s.len) chunks = s.len;
    int64_t per = (s.len + chunks - 1) / chunks;
    Thread** hs = (Thread**)malloc(sizeof(Thread*) * (size_t)chunks);
    __maka_fslice_chunk_t** chs = (__maka_fslice_chunk_t**)malloc(sizeof(void*) * (size_t)chunks);
    double (*combine)(void*, double, double) = (double(*)(void*, double, double))code;
    /* pass 1 */
    for (int64_t c = 0; c < chunks; c++) {
        Thread* th = __maka_thread_new();
        __maka_fslice_chunk_t* ch = (__maka_fslice_chunk_t*)calloc(1, sizeof(__maka_fslice_chunk_t));
        ch->i_start = c * per; ch->i_end = ch->i_start + per;
        if (ch->i_end > s.len) ch->i_end = s.len;
        ch->in_ptr = s.ptr; ch->out_ptr = out; ch->env = env; ch->completion = th;
        ch->code.combine = combine;
        chs[c] = ch;
        __maka_spawn_pthread(&th->handle, __maka_par_scan_f_local_entry, ch, th);
        hs[c] = th;
    }
    double* offsets = (double*)malloc(sizeof(double) * (size_t)chunks);
    for (int64_t c = 0; c < chunks; c++) {
        if (!atomic_load(&hs[c]->is_failed)) pthread_join(hs[c]->handle, NULL);
        offsets[c] = chs[c]->out_acc;
        __maka_thread_unref(hs[c]);
    }
    /* pass 2: running offsets across chunks (chunk 0 stays). */
    double running = offsets[0];
    for (int64_t c = 1; c < chunks; c++) {
        Thread* th = __maka_thread_new();
        chs[c]->completion = th; chs[c]->init = running;
        __maka_spawn_pthread(&th->handle, __maka_par_scan_f_offset_entry, chs[c], th);
        hs[c] = th;
        running = combine(env, running, offsets[c]);
    }
    for (int64_t c = 1; c < chunks; c++) {
        if (!atomic_load(&hs[c]->is_failed)) pthread_join(hs[c]->handle, NULL);
        __maka_thread_unref(hs[c]);
        free(chs[c]);
    }
    free(chs[0]);
    free(hs); free(chs); free(offsets);
    Slice_maka_float res = { .ptr = out, .len = s.len };
    return res;
}
"#;

/// Data-parallel operations over opaque items.
pub const PAR_BYTES: &'static str = r#"typedef struct {
    int64_t i_start, i_end;
    char* in_ptr;
    char* out_ptr;
    int64_t in_sz;
    int64_t out_sz;
    void (*body)(void*, void*, void*);
    void* env;
    Thread* completion;
} __maka_bytes_chunk_t;
static void* __maka_par_map_bytes_entry(void* arg) {
    __maka_bytes_chunk_t* c = (__maka_bytes_chunk_t*)arg;
    for (int64_t i = c->i_start; i < c->i_end; i++) {
        c->body(c->env, (void*)(c->in_ptr + i * c->in_sz), (void*)(c->out_ptr + i * c->out_sz));
    }
    pthread_mutex_lock(&c->completion->done_mutex);
    c->completion->done_flag = 1;
    pthread_cond_broadcast(&c->completion->done_cond);
    pthread_mutex_unlock(&c->completion->done_mutex);
    __maka_thread_unref(c->completion);
    free(c); return NULL;
}
void* maka_par_map_bytes(void* in_ptr, int64_t n, int64_t in_sz, int64_t out_sz, void* code, void* env) {
    if (n <= 0 || out_sz <= 0 || in_sz < 0) return NULL;
    size_t total;
    if (__builtin_mul_overflow((size_t)n, (size_t)out_sz, &total)) return NULL;
    char* out = (char*)malloc(total);
    if (!out) return NULL;
    long nprocs = sysconf(_SC_NPROCESSORS_ONLN);
    if (nprocs < 1) nprocs = 1; if (nprocs > 16) nprocs = 16;
    int64_t chunks = (int64_t)nprocs;
    if (chunks > n) chunks = n;
    int64_t per = (n + chunks - 1) / chunks;
    Thread** hs = (Thread**)malloc(sizeof(Thread*) * (size_t)chunks);
    for (int64_t c = 0; c < chunks; c++) {
        Thread* th = __maka_thread_new();
        __maka_bytes_chunk_t* ch = (__maka_bytes_chunk_t*)calloc(1, sizeof(__maka_bytes_chunk_t));
        ch->i_start = c * per; ch->i_end = ch->i_start + per;
        if (ch->i_end > n) ch->i_end = n;
        ch->in_ptr = (char*)in_ptr;
        ch->out_ptr = out;
        ch->in_sz = in_sz; ch->out_sz = out_sz;
        ch->env = env; ch->completion = th;
        ch->body = (void(*)(void*, void*, void*))code;
        __maka_spawn_pthread(&th->handle, __maka_par_map_bytes_entry, ch, th);
        hs[c] = th;
    }
    for (int64_t c = 0; c < chunks; c++) (void)__maka_join_result((maka_unit*)hs[c]);
    free(hs);
    return (void*)out;
}
typedef struct {
    int64_t i_start, i_end;
    char* in_ptr;
    char* tmp_ptr;
    int64_t item_sz;
    int (*pred)(void*, void*);
    void* env;
    int64_t out_count;
    Thread* completion;
} __maka_bytes_filter_chunk_t;
static void* __maka_par_filter_bytes_entry(void* arg) {
    __maka_bytes_filter_chunk_t* c = (__maka_bytes_filter_chunk_t*)arg;
    int64_t w = 0;
    for (int64_t i = c->i_start; i < c->i_end; i++) {
        void* it = (void*)(c->in_ptr + i * c->item_sz);
        if (c->pred(c->env, it)) {
            memcpy(c->tmp_ptr + w * c->item_sz, it, (size_t)c->item_sz); w++;
        }
    }
    c->out_count = w;
    pthread_mutex_lock(&c->completion->done_mutex);
    c->completion->done_flag = 1;
    pthread_cond_broadcast(&c->completion->done_cond);
    pthread_mutex_unlock(&c->completion->done_mutex);
    __maka_thread_unref(c->completion);
    return NULL;
}
void* maka_par_filter_bytes(void* in_ptr, int64_t n, int64_t item_sz, int64_t* out_n, void* code, void* env) {
    *out_n = 0;
    if (n <= 0 || item_sz <= 0) return NULL;
    size_t tmp_total;
    if (__builtin_mul_overflow((size_t)n, (size_t)item_sz, &tmp_total)) return NULL;
    long nprocs = sysconf(_SC_NPROCESSORS_ONLN);
    if (nprocs < 1) nprocs = 1; if (nprocs > 16) nprocs = 16;
    int64_t chunks = (int64_t)nprocs;
    if (chunks > n) chunks = n;
    int64_t per = (n + chunks - 1) / chunks;
    char* tmp = (char*)malloc(tmp_total);
    if (!tmp) return NULL;
    Thread** hs = (Thread**)malloc(sizeof(Thread*) * (size_t)chunks);
    __maka_bytes_filter_chunk_t** chs = (__maka_bytes_filter_chunk_t**)malloc(sizeof(void*) * (size_t)chunks);
    for (int64_t c = 0; c < chunks; c++) {
        Thread* th = __maka_thread_new();
        __maka_bytes_filter_chunk_t* ch = (__maka_bytes_filter_chunk_t*)calloc(1, sizeof(__maka_bytes_filter_chunk_t));
        ch->i_start = c * per; ch->i_end = ch->i_start + per;
        if (ch->i_end > n) ch->i_end = n;
        ch->in_ptr = (char*)in_ptr;
        ch->tmp_ptr = tmp + (ch->i_start * item_sz);
        ch->item_sz = item_sz; ch->env = env; ch->completion = th;
        ch->pred = (int(*)(void*, void*))code;
        chs[c] = ch;
        __maka_spawn_pthread(&th->handle, __maka_par_filter_bytes_entry, ch, th);
        hs[c] = th;
    }
    int64_t total = 0;
    for (int64_t c = 0; c < chunks; c++) {
        if (!atomic_load(&hs[c]->is_failed)) pthread_join(hs[c]->handle, NULL);
        total += chs[c]->out_count;
    }
    size_t out_total;
    if (total <= 0) { out_total = 1; }
    else if (__builtin_mul_overflow((size_t)total, (size_t)item_sz, &out_total)) { free(tmp); return NULL; }
    char* out = (char*)malloc(out_total);
    if (!out) { free(tmp); return NULL; }
    int64_t w = 0;
    for (int64_t c = 0; c < chunks; c++) {
        memcpy(out + w * item_sz, tmp + chs[c]->i_start * item_sz,
               (size_t)(chs[c]->out_count * item_sz));
        w += chs[c]->out_count;
        __maka_thread_unref(hs[c]); free(chs[c]);
    }
    free(hs); free(chs); free(tmp);
    *out_n = total;
    return (void*)out;
}
typedef struct {
    int64_t i_start, i_end;
    char* in_ptr;
    char* out_ptr;
    char* offset_ptr;     /* item-sized scratch for offset pass */
    int64_t item_sz;
    void (*combine)(void*, void*, void*, void*);
    void* env;
    Thread* completion;
} __maka_bytes_scan_chunk_t;
static void* __maka_par_scan_bytes_local_entry(void* arg) {
    __maka_bytes_scan_chunk_t* c = (__maka_bytes_scan_chunk_t*)arg;
    if (c->i_start < c->i_end) {
        memcpy(c->out_ptr + c->i_start * c->item_sz,
               c->in_ptr  + c->i_start * c->item_sz, (size_t)c->item_sz);
        for (int64_t i = c->i_start + 1; i < c->i_end; i++) {
            c->combine(c->env,
                       (void*)(c->out_ptr + (i - 1) * c->item_sz),
                       (void*)(c->in_ptr  +       i * c->item_sz),
                       (void*)(c->out_ptr +       i * c->item_sz));
        }
    }
    pthread_mutex_lock(&c->completion->done_mutex);
    c->completion->done_flag = 1;
    pthread_cond_broadcast(&c->completion->done_cond);
    pthread_mutex_unlock(&c->completion->done_mutex);
    __maka_thread_unref(c->completion);
    return NULL;
}
static void* __maka_par_scan_bytes_offset_entry(void* arg) {
    __maka_bytes_scan_chunk_t* c = (__maka_bytes_scan_chunk_t*)arg;
    for (int64_t i = c->i_start; i < c->i_end; i++) {
        c->combine(c->env,
                   (void*)c->offset_ptr,
                   (void*)(c->out_ptr + i * c->item_sz),
                   (void*)(c->out_ptr + i * c->item_sz));
    }
    pthread_mutex_lock(&c->completion->done_mutex);
    c->completion->done_flag = 1;
    pthread_cond_broadcast(&c->completion->done_cond);
    pthread_mutex_unlock(&c->completion->done_mutex);
    __maka_thread_unref(c->completion);
    return NULL;
}
void* maka_par_scan_bytes(void* in_ptr, int64_t n, int64_t item_sz, void* code, void* env) {
    if (n <= 0 || item_sz <= 0) return NULL;
    size_t total;
    if (__builtin_mul_overflow((size_t)n, (size_t)item_sz, &total)) return NULL;
    char* out = (char*)malloc(total);
    if (!out) return NULL;
    long nprocs = sysconf(_SC_NPROCESSORS_ONLN);
    if (nprocs < 1) nprocs = 1; if (nprocs > 16) nprocs = 16;
    int64_t chunks = (int64_t)nprocs;
    if (chunks > n) chunks = n;
    int64_t per = (n + chunks - 1) / chunks;
    Thread** hs = (Thread**)malloc(sizeof(Thread*) * (size_t)chunks);
    __maka_bytes_scan_chunk_t** chs = (__maka_bytes_scan_chunk_t**)malloc(sizeof(void*) * (size_t)chunks);
    void (*combine)(void*, void*, void*, void*) = (void(*)(void*, void*, void*, void*))code;
    /* pass 1: per-chunk local prefix */
    for (int64_t c = 0; c < chunks; c++) {
        Thread* th = __maka_thread_new();
        __maka_bytes_scan_chunk_t* ch = (__maka_bytes_scan_chunk_t*)calloc(1, sizeof(__maka_bytes_scan_chunk_t));
        ch->i_start = c * per; ch->i_end = ch->i_start + per;
        if (ch->i_end > n) ch->i_end = n;
        ch->in_ptr = (char*)in_ptr; ch->out_ptr = out;
        ch->item_sz = item_sz; ch->env = env; ch->completion = th;
        ch->combine = combine;
        chs[c] = ch;
        __maka_spawn_pthread(&th->handle, __maka_par_scan_bytes_local_entry, ch, th);
        hs[c] = th;
    }
    for (int64_t c = 0; c < chunks; c++) { if (!atomic_load(&hs[c]->is_failed)) pthread_join(hs[c]->handle, NULL); __maka_thread_unref(hs[c]); }
    /* pass 2: running offset across chunks (chunk 0 stays). */
    char* running = (char*)malloc((size_t)item_sz);
    memcpy(running, out + (chs[0]->i_end - 1) * item_sz, (size_t)item_sz);
    char* tmp = (char*)malloc((size_t)item_sz);
    for (int64_t c = 1; c < chunks; c++) {
        Thread* th = __maka_thread_new();
        chs[c]->completion = th;
        chs[c]->offset_ptr = (char*)malloc((size_t)item_sz);
        memcpy(chs[c]->offset_ptr, running, (size_t)item_sz);
        memcpy(tmp, out + (chs[c]->i_end - 1) * item_sz, (size_t)item_sz);
        combine(env, running, tmp, running);
        __maka_spawn_pthread(&th->handle, __maka_par_scan_bytes_offset_entry, chs[c], th);
        hs[c] = th;
    }
    for (int64_t c = 1; c < chunks; c++) {
        if (!atomic_load(&hs[c]->is_failed)) pthread_join(hs[c]->handle, NULL);
        __maka_thread_unref(hs[c]);
        free(chs[c]->offset_ptr); free(chs[c]);
    }
    free(chs[0]);
    free(hs); free(chs); free(running); free(tmp);
    return (void*)out;
}
"#;

/// The data-parallel inclusive scan over integer slices.
pub const PAR_INT_SCAN: &'static str = r#"static void* __maka_par_scan_local_entry(void* arg) {
    __maka_slice_chunk_t* c = (__maka_slice_chunk_t*)arg;
    if (c->i_start < c->i_end) {
        int64_t acc = c->in_ptr[c->i_start];
        c->out_ptr[c->i_start] = acc;
        for (int64_t i = c->i_start + 1; i < c->i_end; i++) {
            acc = c->code.combine(c->env, acc, c->in_ptr[i]);
            c->out_ptr[i] = acc;
        }
        c->out_acc = acc;
    }
    pthread_mutex_lock(&c->completion->done_mutex);
    c->completion->done_flag = 1;
    pthread_cond_broadcast(&c->completion->done_cond);
    pthread_mutex_unlock(&c->completion->done_mutex);
    __maka_thread_unref(c->completion);
    return NULL;
}
static void* __maka_par_scan_offset_entry(void* arg) {
    __maka_slice_chunk_t* c = (__maka_slice_chunk_t*)arg;
    for (int64_t i = c->i_start; i < c->i_end; i++) {
        c->out_ptr[i] = c->code.combine(c->env, c->init, c->out_ptr[i]);
    }
    pthread_mutex_lock(&c->completion->done_mutex);
    c->completion->done_flag = 1;
    pthread_cond_broadcast(&c->completion->done_cond);
    pthread_mutex_unlock(&c->completion->done_mutex);
    __maka_thread_unref(c->completion);
    return NULL;
}
Slice_maka_int __maka_par_scan_int(Slice_maka_int s, void* code, void* env) {
    Slice_maka_int empty = { .ptr = NULL, .len = 0 };
    if (s.len <= 0) return empty;
    int64_t* out = (int64_t*)malloc(sizeof(int64_t) * (size_t)s.len);
    long nprocs = sysconf(_SC_NPROCESSORS_ONLN);
    if (nprocs < 1) nprocs = 1; if (nprocs > 16) nprocs = 16;
    int64_t chunks = (int64_t)nprocs;
    if (chunks > s.len) chunks = s.len;
    int64_t per = (s.len + chunks - 1) / chunks;
    Thread** hs = (Thread**)malloc(sizeof(Thread*) * (size_t)chunks);
    __maka_slice_chunk_t** chs = (__maka_slice_chunk_t**)malloc(sizeof(void*) * (size_t)chunks);
    int64_t (*combine)(void*, int64_t, int64_t) = (int64_t(*)(void*, int64_t, int64_t))code;
    /* pass 1: per-chunk local prefix */
    for (int64_t c = 0; c < chunks; c++) {
        Thread* th = __maka_thread_new();
        __maka_slice_chunk_t* ch = (__maka_slice_chunk_t*)calloc(1, sizeof(__maka_slice_chunk_t));
        ch->i_start = c * per; ch->i_end = ch->i_start + per;
        if (ch->i_end > s.len) ch->i_end = s.len;
        ch->in_ptr = s.ptr; ch->out_ptr = out; ch->env = env; ch->completion = th;
        ch->code.combine = combine;
        chs[c] = ch;
        __maka_spawn_pthread(&th->handle, __maka_par_scan_local_entry, ch, th);
        hs[c] = th;
    }
    int64_t* offsets = (int64_t*)malloc(sizeof(int64_t) * (size_t)chunks);
    for (int64_t c = 0; c < chunks; c++) {
        if (!atomic_load(&hs[c]->is_failed)) pthread_join(hs[c]->handle, NULL);
        offsets[c] = chs[c]->out_acc;
        __maka_thread_unref(hs[c]);
    }
    /* pass 2: apply running offset across chunks (chunk 0 stays). */
    int64_t running = offsets[0];
    for (int64_t c = 1; c < chunks; c++) {
        Thread* th = __maka_thread_new();
        chs[c]->completion = th; chs[c]->init = running;
        __maka_spawn_pthread(&th->handle, __maka_par_scan_offset_entry, chs[c], th);
        hs[c] = th;
        running = combine(env, running, offsets[c]);
    }
    for (int64_t c = 1; c < chunks; c++) {
        if (!atomic_load(&hs[c]->is_failed)) pthread_join(hs[c]->handle, NULL);
        __maka_thread_unref(hs[c]);
        free(chs[c]);
    }
    free(chs[0]);
    free(hs); free(chs); free(offsets);
    Slice_maka_int res = { .ptr = out, .len = s.len };
    return res;
}

"#;

} // verus!
