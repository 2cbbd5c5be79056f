use txdemo::account_service::MemAccountService;
use txdemo::cmd;
use txdemo::csv::{
    CsvAccountWriter, CsvCommandReader, CsvRowError, CsvSyntaxError, FromCommandRecordError,
};
use txdemo::fixed_decimal::{ParseFixedDecimalError, UnsignedAssetCount};
use txdemo::ledger::{ClientId, TransactionId, TransactionMeta};

fn rows_of(input: &str) -> Vec<txdemo::csv::CsvRow> {
    CsvCommandReader::from_reader(input.as_bytes().to_vec()).commands()
}

fn amount(s: &str) -> UnsignedAssetCount {
    UnsignedAssetCount::from_str(s).unwrap()
}

#[test]
fn reader_decodes_all_command_kinds() {
    let input = "type, client, tx, amount\n\
                 deposit, 1, 1, 2.5\n\
                 withdrawal, 1, 2, 1.0\n\
                 dispute, 1, 1,\n\
                 resolve, 1, 1,\n\
                 chargeback, 1, 1,\n";
    let rows = rows_of(input);
    assert_eq!(rows.len(), 5);
    assert_eq!(
        rows[0].record,
        Ok(cmd::Command::Deposit(cmd::Deposit(TransactionMeta {
            id: TransactionId::new(1),
            client: ClientId::new(1),
            amount: amount("2.5"),
        })))
    );
    assert_eq!(
        rows[1].record,
        Ok(cmd::Command::Withdrawal(cmd::Withdrawal(TransactionMeta {
            id: TransactionId::new(2),
            client: ClientId::new(1),
            amount: amount("1.0"),
        })))
    );
    assert_eq!(
        rows[2].record,
        Ok(cmd::Command::Dispute(cmd::Dispute {
            client: ClientId::new(1),
            tx: TransactionId::new(1),
        }))
    );
    assert_eq!(
        rows[3].record,
        Ok(cmd::Command::Resolve(cmd::Resolve {
            client: ClientId::new(1),
            tx: TransactionId::new(1),
        }))
    );
    assert_eq!(
        rows[4].record,
        Ok(cmd::Command::Chargeback(cmd::Chargeback {
            client: ClientId::new(1),
            tx: TransactionId::new(1),
        }))
    );
}

#[test]
fn reader_positions_count_lines_and_records() {
    let input = "type, client, tx, amount\n\
                 \n\
                 deposit, 1, 1, 2.5\n\
                 \n\
                 deposit, 1, 2, 1.0\n";
    let rows = rows_of(input);
    assert_eq!(rows.len(), 2);
    assert_eq!(rows[0].start.line, 3);
    assert_eq!(rows[0].start.record, 1);
    assert_eq!(rows[1].start.line, 5);
    assert_eq!(rows[1].start.record, 2);
}

#[test]
fn reader_accepts_crlf_and_missing_final_newline() {
    let input = "type, client, tx, amount\r\ndeposit, 1, 1, 2.5\r\ndeposit, 1, 2, 1.0";
    let rows = rows_of(input);
    assert_eq!(rows.len(), 2);
    assert!(rows[0].record.is_ok());
    assert!(rows[1].record.is_ok());
}

#[test]
fn reader_trims_fields() {
    let rows = rows_of("type, client, tx, amount\n  deposit \t,  2 , 7 ,\t1.5 \n");
    assert_eq!(rows.len(), 1);
    assert_eq!(
        rows[0].record,
        Ok(cmd::Command::Deposit(cmd::Deposit(TransactionMeta {
            id: TransactionId::new(7),
            client: ClientId::new(2),
            amount: amount("1.5"),
        })))
    );
}

#[test]
fn reader_rejects_missing_amount_for_transactions() {
    let rows = rows_of("type, client, tx, amount\ndeposit, 1, 1,\nwithdrawal, 1, 2,\n");
    assert_eq!(rows.len(), 2);
    assert!(matches!(
        rows[0].record,
        Err(CsvRowError::ValidationError(FromCommandRecordError::Deposit(_)))
    ));
    assert!(matches!(
        rows[1].record,
        Err(CsvRowError::ValidationError(FromCommandRecordError::Withdrawal(_)))
    ));
}

#[test]
fn reader_rejects_malformed_rows() {
    let rows = rows_of(
        "type, client, tx, amount\n\
         deposit, 1, 1\n\
         transfer, 1, 1, 2.0\n\
         deposit, 99999, 1, 2.0\n\
         deposit, 1, 99999999999, 2.0\n\
         deposit, 1, 1, 2.x\n",
    );
    assert_eq!(rows.len(), 5);
    assert_eq!(rows[0].record, Err(CsvRowError::Csv(CsvSyntaxError::WrongFieldCount)));
    assert_eq!(rows[1].record, Err(CsvRowError::Csv(CsvSyntaxError::InvalidCommandType)));
    assert_eq!(rows[2].record, Err(CsvRowError::Csv(CsvSyntaxError::InvalidClientId)));
    assert_eq!(rows[3].record, Err(CsvRowError::Csv(CsvSyntaxError::InvalidTransactionId)));
    assert_eq!(
        rows[4].record,
        Err(CsvRowError::Csv(CsvSyntaxError::InvalidAmount(
            ParseFixedDecimalError::InvalidChar(2)
        )))
    );
}

#[test]
fn reader_ignores_amount_on_dispute_rows() {
    let rows = rows_of("type, client, tx, amount\ndispute, 1, 1, 3.0\n");
    assert_eq!(rows.len(), 1);
    assert_eq!(
        rows[0].record,
        Ok(cmd::Command::Dispute(cmd::Dispute {
            client: ClientId::new(1),
            tx: TransactionId::new(1),
        }))
    );
}

#[test]
fn reader_still_checks_amount_syntax_on_dispute_rows() {
    let rows = rows_of("type, client, tx, amount\ndispute, 1, 1, bogus\n");
    assert_eq!(rows.len(), 1);
    assert!(matches!(
        rows[0].record,
        Err(CsvRowError::Csv(CsvSyntaxError::InvalidAmount(_)))
    ));
}

#[test]
fn reader_of_empty_input_yields_nothing() {
    assert_eq!(rows_of("").len(), 0);
    assert_eq!(rows_of("type, client, tx, amount\n").len(), 0);
}

#[test]
fn writer_renders_header_and_rows() {
    let mut service = MemAccountService::default();
    for row in rows_of(
        "type, client, tx, amount\n\
         deposit, 1, 1, 2.5\n\
         deposit, 2, 2, 1.0\n\
         dispute, 2, 2,\n\
         chargeback, 2, 2,\n",
    ) {
        service.submit(row.record.unwrap()).unwrap();
    }
    let mut accounts = service.get_all_accounts();
    accounts.sort_by_key(|a| a.client.0);
    let mut writer = CsvAccountWriter::from_writer(Vec::new());
    writer.write_headers();
    writer.write_all(&accounts);
    writer.flush();
    let output = String::from_utf8(writer.into_inner()).unwrap();
    assert_eq!(
        output,
        "client,available,held,total,locked\n\
         1,2.5000,0.0000,2.5000,false\n\
         2,0.0000,0.0000,0.0000,true\n"
    );
}

#[test]
fn writer_writes_single_rows() {
    let mut service = MemAccountService::default();
    for row in rows_of("type, client, tx, amount\ndeposit, 3, 1, 0.1\n") {
        service.submit(row.record.unwrap()).unwrap();
    }
    let accounts = service.get_all_accounts();
    let mut writer = CsvAccountWriter::from_writer(Vec::new());
    writer.write(accounts[0]);
    let output = String::from_utf8(writer.into_inner()).unwrap();
    assert_eq!(output, "3,0.1000,0.0000,0.1000,false\n");
}
